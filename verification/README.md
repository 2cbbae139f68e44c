# onethu_harness

The core of a campus assistant: a language model is given tools over the data of a
host application, and talks with the user about it. Everything that decides is in
`src/` and proved with Verus; what talks to the outside world is in `app/`.

- `config`, `date`, `text`: settings, and dates and times as people write them
- `json`: JSON values, and the builders that contracts and code share
- `host`, `conn`: the calls to the host, the messages from it, and their framing
- `llm`: requests to the model, and its whole or streamed answers
- `mcp`: servers of further tools
- `usage`: what the model used
- `session`: conversations, their storage, and the trimming of a history
- `tools`: the tools. Each is a plan, a tree of calls and answers, and what is done is
  proved to follow the plan; `tools::laws` states what holds of all plans, and
  `tools::booked` that what the user was shown is what is booked or cancelled
- `agent`: the prompt, the commands of the panel, and a run of the conversation as a
  machine; `agent::laws` states what holds of every run

A write, such as booking a seat, is made in two steps: the first run of its tool only
gathers what there is to confirm, and only the user's word lets it be done.

`app/` is the program around the library: JSON-RPC over stdin and stdout, HTTP to the
model, child processes, money as floating point, and the stored form of conversations.
