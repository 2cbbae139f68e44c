//! The model's side of a conversation: the request of a turn, and what its answer
//! says, whether it comes whole or streamed. Sending and receiving is not here.

use crate::config::Config;
use crate::json;
use crate::json::{Arr, Json, Rec};
use crate::session;
use crate::session::Msg;
use crate::text;
use crate::usage;
use crate::usage::ApiUsage;
use vstd::prelude::*;

pub mod laws;

verus! {

/// A tool call of the model.
#[derive(Debug)]
pub struct ToolCall {
    pub id: String,
    pub name: String,
    pub arguments: String,
}

pub struct CallV {
    pub id: Seq<char>,
    pub name: Seq<char>,
    pub arguments: Seq<char>,
}

impl View for ToolCall {
    type V = CallV;

    open spec fn view(&self) -> CallV {
        CallV { id: self.id@, name: self.name@, arguments: self.arguments@ }
    }
}

pub open spec fn calls_of(v: Seq<ToolCall>) -> Seq<CallV> {
    v.map_values(|c: ToolCall| c@)
}

impl Clone for ToolCall {
    fn clone(&self) -> (r: Self)
        ensures
            r@ == self@,
    {
        ToolCall {
            id: self.id.clone(),
            name: self.name.clone(),
            arguments: self.arguments.clone(),
        }
    }
}

/// One turn of the model.
#[derive(Debug)]
pub struct Turn {
    pub content: String,
    pub reasoning: String,
    pub tool_calls: Vec<ToolCall>,
    pub usage: Option<ApiUsage>,
}

pub struct TurnV {
    pub content: Seq<char>,
    pub reasoning: Seq<char>,
    pub tool_calls: Seq<CallV>,
    pub usage: Option<ApiUsage>,
}

impl View for Turn {
    type V = TurnV;

    open spec fn view(&self) -> TurnV {
        TurnV {
            content: self.content@,
            reasoning: self.reasoning@,
            tool_calls: calls_of(self.tool_calls@),
            usage: self.usage,
        }
    }
}

/// Why a turn failed.
#[derive(Debug)]
pub struct LlmError {
    pub message: String,
}

impl From<String> for LlmError {
    fn from(s: String) -> (r: Self) {
        LlmError { message: s }
    }
}

impl vstd::std_specs::convert::FromSpecImpl<String> for LlmError {
    open spec fn obeys_from_spec() -> bool {
        true
    }

    open spec fn from_spec(s: String) -> Self {
        LlmError { message: s }
    }
}

pub open spec fn turn_of(r: Result<Turn, LlmError>) -> Result<TurnV, Seq<char>> {
    match r {
        Ok(t) => Ok(t@),
        Err(e) => Err(e.message@),
    }
}

/// The message of an error in the form that OpenAI gives it.
pub open spec fn inner_message(v: Option<json::Tree>) -> Option<Seq<char>> {
    match v {
        Some(t) => match json::field(t, "error"@) {
            Some(e) => json::str_of(json::field(e, "message"@)),
            None => None,
        },
        None => None,
    }
}

/// What is said of an answer with an error status: the message that its body holds,
/// or the beginning of the body.
pub open spec fn status_text(code: u16, body: Seq<char>) -> Seq<char> {
    let snippet = text::first_chars(body, 400);
    let msg = match inner_message(json::json_read(snippet)) {
        Some(m) => m,
        None => snippet,
    };
    "LLM HTTP "@ + text::decimal(code as nat) + "："@ + msg
}

fn read_inner(v: &Option<Json>) -> (r: Option<String>)
    ensures
        text::option_text(r) == inner_message(json::option_tree(*v)),
{
    match v {
        Some(t) => match t.get("error") {
            Some(e) => e.text_option("message"),
            None => None,
        },
        None => None,
    }
}

/// The failure of a turn whose answer has an error status.
pub fn http_err(code: u16, body: &str) -> (r: LlmError)
    ensures
        r.message@ == status_text(code, body@),
{
    let snippet = text::take_chars(body, 400);
    let parsed = json::parse(snippet.as_str());
    let msg = match read_inner(&parsed) {
        Some(m) => m,
        None => snippet,
    };
    let mut s = text::cat3("LLM HTTP ", text::write_u64(code as u64).as_str(), "：");
    s.append(msg.as_str());
    LlmError { message: s }
}

/// The failure of a turn that found no answer.
pub fn transport_err(reason: &str) -> (r: LlmError)
    ensures
        r.message@ == "LLM 网络错误："@ + reason@,
{
    LlmError { message: text::cat("LLM 网络错误：", reason) }
}

/// The failure of a turn whose answer is no JSON.
pub fn format_err(reason: &str) -> (r: LlmError)
    ensures
        r.message@ == "响应解析失败："@ + reason@,
{
    LlmError { message: text::cat("响应解析失败：", reason) }
}

/// The failure of a turn whose stream broke off.
pub fn stream_err(reason: &str) -> (r: LlmError)
    ensures
        r.message@ == "流读取中断："@ + reason@,
{
    LlmError { message: text::cat("流读取中断：", reason) }
}

pub open spec fn sent_all(msgs: Seq<session::MsgV>) -> Seq<json::Tree> {
    msgs.map_values(|m: session::MsgV| session::sent(m))
}

/// The body of a request: the model, the messages, and whether to stream; the tools
/// where there are any; and the wish for the usage where it streams.
pub open spec fn body_tree(
    model: Seq<char>,
    stream: bool,
    msgs: Seq<session::MsgV>,
    tools: Seq<json::Tree>,
) -> json::Tree {
    let a = json::no_fields().push(("model"@, json::Tree::Str(model))).push(
        ("messages"@, json::Tree::Arr(sent_all(msgs))),
    ).push(("stream"@, json::Tree::Bool(stream)));
    let b = if tools.len() > 0 {
        a.push(("tools"@, json::Tree::Arr(tools))).push(("tool_choice"@, json::Tree::Str("auto"@)))
    } else {
        a
    };
    let c = if stream {
        b.push(
            (
                "stream_options"@,
                json::Tree::Obj(json::no_fields().push(("include_usage"@, json::Tree::Bool(true)))),
            ),
        )
    } else {
        b
    };
    json::Tree::Obj(c)
}

/// Where a request goes.
pub fn request_url(cfg: &Config) -> (r: String)
    ensures
        r@ == cfg.base_url@ + "/chat/completions"@,
{
    text::cat(cfg.base_url.as_str(), "/chat/completions")
}

/// By what a request is authorized.
pub fn authorization(cfg: &Config) -> (r: String)
    ensures
        r@ == "Bearer "@ + cfg.api_key@,
{
    text::cat("Bearer ", cfg.api_key.as_str())
}

/// An answer of that content type is read as a stream: one was asked for, and it is
/// one. Anything else is read as a whole.
pub fn is_streamed(cfg: &Config, content_type: &str) -> (r: bool)
    ensures
        r == (cfg.stream && text::occurs(content_type@, "event-stream"@)),
{
    cfg.stream && text::contains(content_type, "event-stream")
}

/// The body of a request.
pub fn request_body(cfg: &Config, messages: &Vec<Msg>, tools: Vec<Json>) -> (r: Json)
    ensures
        r@ == body_tree(cfg.model@, cfg.stream, session::msgs_of(messages@), json::trees(tools@)),
{
    let ghost all = session::msgs_of(messages@);
    let mut list = Arr::new();
    let mut i: usize = 0;
    assert(sent_all(all).take(0) =~= json::no_items());
    while i < messages.len()
        invariant
            i <= messages@.len(),
            all == session::msgs_of(messages@),
            list@ == sent_all(all).take(i as int),
        decreases messages@.len() - i,
    {
        assert(sent_all(all).take(i + 1) =~= sent_all(all).take(i as int).push(
            session::sent(messages@[i as int]@),
        ));
        list = list.with(messages[i].to_value());
        i += 1;
    }
    assert(sent_all(all).take(all.len() as int) =~= sent_all(all));
    let mut body = Rec::new().text("model", cfg.model.as_str()).with("messages", list.done()).flag(
        "stream",
        cfg.stream,
    );
    let some = tools.len() > 0;
    assert(json::trees(tools@).len() == tools@.len());
    if some {
        body = body.with("tools", json::list(tools)).text("tool_choice", "auto");
    }
    if cfg.stream {
        let options = Rec::new().flag("include_usage", true).done();
        body = body.with("stream_options", options);
    }
    body.done()
}

/// What is logged of a request.
pub open spec fn request_note(model: Seq<char>, n: nat, stream: bool) -> Seq<char> {
    "[harness] LLM ← "@ + model + " ("@ + text::decimal(n) + " msgs, stream="@ + (if stream {
        "true"@
    } else {
        "false"@
    }) + ")"@
}

pub fn request_log(cfg: &Config, n: usize) -> (r: String)
    ensures
        r@ == request_note(cfg.model@, n as nat, cfg.stream),
{
    let mut s = text::cat3("[harness] LLM ← ", cfg.model.as_str(), " (");
    s.append(text::write_usize(n).as_str());
    s.append(" msgs, stream=");
    s.append(if cfg.stream { "true" } else { "false" });
    s.append(")");
    s
}

/// A tool call of a whole answer: it has a function with a name; an id or arguments
/// that are left out are made up for.
pub open spec fn call_in(tc: json::Tree) -> Option<CallV> {
    match json::field(tc, "function"@) {
        Some(f) => match json::str_of(json::field(f, "name"@)) {
            Some(name) => Some(
                CallV {
                    id: match json::str_of(json::field(tc, "id"@)) {
                        Some(id) => id,
                        None => "call_0"@,
                    },
                    name,
                    arguments: match json::str_of(json::field(f, "arguments"@)) {
                        Some(a) => a,
                        None => "{}"@,
                    },
                },
            ),
            None => None,
        },
        None => None,
    }
}

/// The tool calls of a whole answer, in their order.
pub open spec fn calls_in(items: Seq<json::Tree>) -> Seq<CallV>
    decreases items.len(),
{
    if items.len() == 0 {
        Seq::empty()
    } else {
        match call_in(items.last()) {
            Some(c) => calls_in(items.drop_last()).push(c),
            None => calls_in(items.drop_last()),
        }
    }
}

pub open spec fn usage_in(v: Option<json::Tree>) -> Option<ApiUsage> {
    match v {
        Some(u) => usage::reported(u),
        None => None,
    }
}

/// The first choice of an answer.
pub open spec fn first_choice(v: json::Tree) -> Option<json::Tree> {
    match json::field(v, "choices"@) {
        Some(c) => json::element(c, 0),
        None => None,
    }
}

/// What a whole answer says.
pub open spec fn completion(v: json::Tree) -> Result<TurnV, Seq<char>> {
    match json::field(v, "error"@) {
        Some(e) => Err("LLM 错误："@ + json::json_text(e)),
        None => {
            let msg = match first_choice(v) {
                Some(c) => json::value_at(c, "message"@),
                None => json::Tree::Null,
            };
            Ok(
                TurnV {
                    content: json::text_at(msg, "content"@),
                    reasoning: Seq::empty(),
                    tool_calls: calls_in(json::elements_of(json::field(msg, "tool_calls"@))),
                    usage: usage_in(json::field(v, "usage"@)),
                },
            )
        },
    }
}

fn or_text(v: Option<String>, d: &str) -> (r: String)
    ensures
        r@ == (match text::option_text(v) {
            Some(s) => s,
            None => d@,
        }),
{
    match v {
        Some(s) => s,
        None => d.to_owned(),
    }
}

fn read_call(tc: &Json) -> (r: Option<ToolCall>)
    ensures
        (match r {
            Some(c) => Some(c@),
            None => None,
        }) == call_in(tc@),
{
    match tc.get("function") {
        Some(f) => match f.text_option("name") {
            Some(name) => Some(
                ToolCall {
                    id: or_text(tc.text_option("id"), "call_0"),
                    name,
                    arguments: or_text(f.text_option("arguments"), "{}"),
                },
            ),
            None => None,
        },
        None => None,
    }
}

fn read_calls(items: &Vec<Json>) -> (r: Vec<ToolCall>)
    ensures
        calls_of(r@) == calls_in(json::trees(items@)),
{
    let ghost all = json::trees(items@);
    let mut out: Vec<ToolCall> = Vec::new();
    let mut i: usize = 0;
    assert(all.take(0) =~= Seq::empty());
    assert(calls_of(out@) =~= Seq::empty());
    while i < items.len()
        invariant
            i <= items@.len(),
            all == json::trees(items@),
            calls_of(out@) == calls_in(all.take(i as int)),
        decreases items@.len() - i,
    {
        assert(all.take(i + 1).drop_last() =~= all.take(i as int));
        assert(all.take(i + 1).last() == items@[i as int]@);
        if let Some(c) = read_call(&items[i]) {
            let ghost before = out@;
            out.push(c);
            assert(calls_of(out@) =~= calls_of(before).push(c@));
        }
        i += 1;
    }
    assert(all.take(all.len() as int) =~= all);
    out
}

fn read_usage(v: Option<&Json>) -> (r: Option<ApiUsage>)
    ensures
        r == usage_in(
            match v {
                Some(x) => Some(x@),
                None => None,
            },
        ),
{
    match v {
        Some(u) => ApiUsage::from_json(u),
        None => None,
    }
}

/// What a whole answer says.
pub fn parse_completion(v: &Json) -> (r: Result<Turn, LlmError>)
    ensures
        turn_of(r) == completion(v@),
{
    if let Some(e) = v.get("error") {
        return Err(LlmError { message: text::cat("LLM 错误：", json::print(e).as_str()) });
    }
    let msg = match v.get("choices") {
        Some(c) => match c.at(0) {
            Some(choice) => choice.value("message"),
            None => Json::Null,
        },
        None => Json::Null,
    };
    let turn = Turn {
        content: msg.text("content"),
        reasoning: String::new(),
        tool_calls: read_calls(&msg.items_at("tool_calls")),
        usage: read_usage(v.get("usage")),
    };
    Ok(turn)
}

/// A streamed answer, as far as it has come. The tool calls stand by their index.
#[derive(Debug)]
pub struct Stream {
    pub content: String,
    pub reasoning: String,
    pub calls: Vec<(u64, ToolCall)>,
    pub usage: Option<ApiUsage>,
}

pub struct StreamV {
    pub content: Seq<char>,
    pub reasoning: Seq<char>,
    pub calls: Seq<(u64, CallV)>,
    pub usage: Option<ApiUsage>,
}

pub open spec fn slots_of(v: Seq<(u64, ToolCall)>) -> Seq<(u64, CallV)> {
    v.map_values(|c: (u64, ToolCall)| (c.0, c.1@))
}

impl View for Stream {
    type V = StreamV;

    open spec fn view(&self) -> StreamV {
        StreamV {
            content: self.content@,
            reasoning: self.reasoning@,
            calls: slots_of(self.calls@),
            usage: self.usage,
        }
    }
}

/// Nothing has come yet.
pub open spec fn no_stream() -> StreamV {
    StreamV { content: Seq::empty(), reasoning: Seq::empty(), calls: Seq::empty(), usage: None }
}

/// The first position at or after `i` whose index is `idx` or more.
pub open spec fn slot_from(calls: Seq<(u64, CallV)>, idx: u64, i: int) -> int
    decreases calls.len() - i,
{
    if i < calls.len() && calls[i].0 < idx {
        slot_from(calls, idx, i + 1)
    } else {
        i
    }
}

/// A text that is there and not empty.
pub open spec fn some_text(v: Option<json::Tree>) -> Option<Seq<char>> {
    match json::str_of(v) {
        Some(s) => if s.len() > 0 {
            Some(s)
        } else {
            None
        },
        None => None,
    }
}

/// A call with a piece of it added: an id and a name replace those before, where they
/// are not empty; arguments are appended.
pub open spec fn call_with(c: CallV, tc: json::Tree) -> CallV {
    let f = json::field(tc, "function"@);
    CallV {
        id: match some_text(json::field(tc, "id"@)) {
            Some(id) => id,
            None => c.id,
        },
        name: match f {
            Some(f) => match some_text(json::field(f, "name"@)) {
                Some(n) => n,
                None => c.name,
            },
            None => c.name,
        },
        arguments: match f {
            Some(f) => match json::str_of(json::field(f, "arguments"@)) {
                Some(a) => c.arguments + a,
                None => c.arguments,
            },
            None => c.arguments,
        },
    }
}

pub open spec fn empty_call() -> CallV {
    CallV { id: Seq::empty(), name: Seq::empty(), arguments: Seq::empty() }
}

/// The index that a piece of a call is for.
pub open spec fn index_in(tc: json::Tree) -> u64 {
    match json::u64_of(json::field(tc, "index"@)) {
        Some(i) => i,
        None => 0,
    }
}

/// The calls with a piece of one added, under its index.
pub open spec fn calls_with(calls: Seq<(u64, CallV)>, tc: json::Tree) -> Seq<(u64, CallV)> {
    let idx = index_in(tc);
    let p = slot_from(calls, idx, 0);
    if p < calls.len() && calls[p].0 == idx {
        calls.update(p, (idx, call_with(calls[p].1, tc)))
    } else {
        calls.insert(p, (idx, call_with(empty_call(), tc)))
    }
}

pub open spec fn calls_with_all(calls: Seq<(u64, CallV)>, items: Seq<json::Tree>) -> Seq<(u64, CallV)>
    decreases items.len(),
{
    if items.len() == 0 {
        calls
    } else {
        calls_with(calls_with_all(calls, items.drop_last()), items.last())
    }
}

/// The piece of the first choice that a chunk brings.
pub open spec fn delta_in(chunk: json::Tree) -> Option<json::Tree> {
    match first_choice(chunk) {
        Some(c) => json::field(c, "delta"@),
        None => None,
    }
}

/// The piece of text, or of reasoning, that a chunk brings.
pub open spec fn piece(chunk: json::Tree, key: Seq<char>) -> Option<Seq<char>> {
    match delta_in(chunk) {
        Some(d) => some_text(json::field(d, key)),
        None => None,
    }
}

/// The first of the chunk's `choices` has, in its `delta`, that text under that name.
pub open spec fn delta_has(chunk: json::Tree, key: Seq<char>, t: Seq<char>) -> bool {
    &&& json::field(chunk, "choices"@) matches Some(json::Tree::Arr(choices))
    &&& choices.len() > 0
    &&& json::field(choices[0], "delta"@) matches Some(delta)
    &&& json::field(delta, key) == Some(json::Tree::Str(t))
}

pub open spec fn with_piece(s: Seq<char>, p: Option<Seq<char>>) -> Seq<char> {
    match p {
        Some(t) => s + t,
        None => s,
    }
}

/// The stream with a chunk added.
pub open spec fn fed(s: StreamV, chunk: json::Tree) -> StreamV {
    StreamV {
        content: with_piece(s.content, piece(chunk, "content"@)),
        reasoning: with_piece(s.reasoning, piece(chunk, "reasoning_content"@)),
        calls: match delta_in(chunk) {
            Some(d) => calls_with_all(s.calls, json::elements_of(json::field(d, "tool_calls"@))),
            None => s.calls,
        },
        usage: match json::field(chunk, "usage"@) {
            Some(u) => if u is Obj {
                usage::reported(u)
            } else {
                s.usage
            },
            None => s.usage,
        },
    }
}

/// What a line of a stream is.
pub enum LineV {
    /// Nothing to take in: empty, a comment, another field, or no JSON.
    Skip,
    /// The end of the stream.
    End,
    Chunk(json::Tree),
}

/// What a line of a stream is.
pub open spec fn line_in(line: Seq<char>) -> LineV {
    let t = text::trimmed(line);
    if t.len() == 0 || t[0] == ':' || !"data:"@.is_prefix_of(t) {
        LineV::Skip
    } else {
        let data = text::trimmed(t.skip("data:"@.len() as int));
        if data == "[DONE]"@ {
            LineV::End
        } else {
            match json::json_read(data) {
                Some(chunk) => LineV::Chunk(chunk),
                None => LineV::Skip,
            }
        }
    }
}

/// What came with a line of a stream.
#[derive(Debug)]
pub struct Fed {
    /// The stream is at its end.
    pub end: bool,
    /// What was added to the reasoning.
    pub think: Option<String>,
    /// What was added to the text.
    pub delta: Option<String>,
}

/// A line of a stream, read.
#[derive(Debug)]
pub enum Line {
    Skip,
    End,
    Chunk(Json),
}

impl View for Line {
    type V = LineV;

    open spec fn view(&self) -> LineV {
        match self {
            Line::Skip => LineV::Skip,
            Line::End => LineV::End,
            Line::Chunk(c) => LineV::Chunk(c@),
        }
    }
}

/// Reads a line of a stream.
pub fn read_line(line: &str) -> (r: Line)
    ensures
        r@ == line_in(line@),
{
    let t = text::trim(line);
    if t.as_str().is_empty() || text::starts_with(t.as_str(), ":") {
        proof {
            reveal_strlit(":");
            if t@.len() > 0 {
                assert(":"@.is_prefix_of(t@));
                assert(t@[0] == ":"@[0]);
            }
        }
        return Line::Skip;
    }
    proof {
        reveal_strlit(":");
        if t@[0] == ':' {
            assert(t@.take(1) =~= ":"@);
        }
    }
    match text::after(t.as_str(), "data:") {
        Some(rest) => {
            let data = text::trim(rest.as_str());
            if text::same(data.as_str(), "[DONE]") {
                return Line::End;
            }
            match json::parse(data.as_str()) {
                Some(chunk) => Line::Chunk(chunk),
                None => Line::Skip,
            }
        },
        None => Line::Skip,
    }
}

fn some_string(v: Option<String>) -> (r: Option<String>)
    ensures
        text::option_text(r) == (match text::option_text(v) {
            Some(s) => if s.len() > 0 {
                Some(s)
            } else {
                None
            },
            None => None,
        }),
{
    match v {
        Some(s) => if s.as_str().is_empty() {
            None
        } else {
            Some(s)
        },
        None => None,
    }
}

fn add_piece(c: &mut ToolCall, tc: &Json)
    ensures
        final(c)@ == call_with(old(c)@, tc@),
{
    if let Some(id) = some_string(tc.text_option("id")) {
        c.id = id;
    }
    if let Some(f) = tc.get("function") {
        if let Some(n) = some_string(f.text_option("name")) {
            c.name = n;
        }
        if let Some(a) = f.text_option("arguments") {
            c.arguments.append(a.as_str());
        }
    }
}

impl Stream {
    pub fn new() -> (r: Stream)
        ensures
            r@ == no_stream(),
    {
        let r = Stream {
            content: String::new(),
            reasoning: String::new(),
            calls: Vec::new(),
            usage: None,
        };
        assert(r@.calls =~= Seq::empty());
        r
    }

    fn add_call(&mut self, tc: &Json)
        ensures
            final(self)@ == (StreamV { calls: calls_with(old(self)@.calls, tc@), ..old(self)@ }),
    {
        let idx: u64 = match tc.get("index") {
            Some(v) => match v.as_u64() {
                Some(i) => i,
                None => 0,
            },
            None => 0,
        };
        let ghost all = self@.calls;
        let mut p: usize = 0;
        while p < self.calls.len() && self.calls[p].0 < idx
            invariant
                p <= self.calls@.len(),
                *self == *old(self),
                all == slots_of(self.calls@),
                slot_from(all, idx, p as int) == slot_from(all, idx, 0),
            decreases self.calls@.len() - p,
        {
            assert(all[p as int].0 == self.calls@[p as int].0);
            p += 1;
        }
        assert(p < self.calls@.len() ==> all[p as int] == (
            self.calls@[p as int].0,
            self.calls@[p as int].1@,
        ));
        if p < self.calls.len() && self.calls[p].0 == idx {
            let mut c = self.calls[p].1.clone();
            add_piece(&mut c, tc);
            self.calls[p] = (idx, c);
            assert(self@.calls =~= all.update(p as int, (idx, c@)));
        } else {
            let mut c = ToolCall {
                id: String::new(),
                name: String::new(),
                arguments: String::new(),
            };
            add_piece(&mut c, tc);
            self.calls.insert(p, (idx, c));
            assert(self@.calls =~= all.insert(p as int, (idx, c@)));
        }
    }

    /// Takes a chunk in, and tells what it added.
    pub fn feed(&mut self, chunk: &Json) -> (r: Fed)
        ensures
            final(self)@ == fed(old(self)@, chunk@),
            !r.end,
            text::option_text(r.think) == piece(chunk@, "reasoning_content"@),
            text::option_text(r.delta) == piece(chunk@, "content"@),
            forall|t: Seq<char>|
                t.len() > 0 && #[trigger] delta_has(chunk@, "content"@, t) ==> text::option_text(
                    r.delta,
                ) == Some(t) && final(self)@.content == old(self)@.content + t,
            forall|t: Seq<char>|
                t.len() > 0 && #[trigger] delta_has(chunk@, "reasoning_content"@, t)
                    ==> text::option_text(r.think) == Some(t) && final(self)@.reasoning == old(
                    self,
                )@.reasoning + t,
    {
        if let Some(u) = chunk.get("usage") {
            if u.is_object() {
                self.usage = ApiUsage::from_json(u);
            }
        }
        let choice = match chunk.get("choices") {
            Some(c) => c.at(0),
            None => None,
        };
        let delta = match choice {
            Some(c) => c.get("delta"),
            None => None,
        };
        let d = match delta {
            Some(d) => d,
            None => {
                return Fed { end: false, think: None, delta: None };
            },
        };
        let think = some_string(d.text_option("reasoning_content"));
        if let Some(t) = &think {
            self.reasoning.append(t.as_str());
        }
        let piece = some_string(d.text_option("content"));
        if let Some(t) = &piece {
            self.content.append(t.as_str());
        }
        let items = d.items_at("tool_calls");
        let ghost all = json::trees(items@);
        let ghost start = self@;
        let mut i: usize = 0;
        assert(all.take(0) =~= Seq::empty());
        while i < items.len()
            invariant
                i <= items@.len(),
                all == json::trees(items@),
                self@ == (StreamV {
                    calls: calls_with_all(start.calls, all.take(i as int)),
                    ..start
                }),
            decreases items@.len() - i,
        {
            assert(all.take(i + 1).drop_last() =~= all.take(i as int));
            assert(all.take(i + 1).last() == items@[i as int]@);
            self.add_call(&items[i]);
            i += 1;
        }
        assert(all.take(all.len() as int) =~= all);
        Fed { end: false, think, delta: piece }
    }

    /// Takes a line of the stream in, and tells what it added.
    pub fn feed_line(&mut self, line: &str) -> (r: Fed)
        ensures
            match line_in(line@) {
                LineV::Skip => final(self)@ == old(self)@ && !r.end && r.think is None
                    && r.delta is None,
                LineV::End => final(self)@ == old(self)@ && r.end && r.think is None
                    && r.delta is None,
                LineV::Chunk(chunk) => {
                    &&& final(self)@ == fed(old(self)@, chunk)
                    &&& !r.end
                    &&& text::option_text(r.think) == piece(chunk, "reasoning_content"@)
                    &&& text::option_text(r.delta) == piece(chunk, "content"@)
                    &&& forall|t: Seq<char>|
                        t.len() > 0 && #[trigger] delta_has(chunk, "content"@, t)
                            ==> text::option_text(r.delta) == Some(t) && final(self)@.content
                            == old(self)@.content + t
                    &&& forall|t: Seq<char>|
                        t.len() > 0 && #[trigger] delta_has(chunk, "reasoning_content"@, t)
                            ==> text::option_text(r.think) == Some(t) && final(self)@.reasoning
                            == old(self)@.reasoning + t
                },
            },
    {
        match read_line(line) {
            Line::Skip => Fed { end: false, think: None, delta: None },
            Line::End => Fed { end: true, think: None, delta: None },
            Line::Chunk(chunk) => self.feed(&chunk),
        }
    }

    /// The turn that the stream amounts to: its tool calls in the order of their index.
    pub fn finish(self) -> (r: Turn)
        ensures
            r@ == finished(self@),
    {
        let mut out: Vec<ToolCall> = Vec::new();
        let mut i: usize = 0;
        while i < self.calls.len()
            invariant
                i <= self.calls@.len(),
                out@.len() == i,
                forall|k: int| 0 <= k < i ==> (#[trigger] out@[k])@ == self.calls@[k].1@,
            decreases self.calls@.len() - i,
        {
            out.push(self.calls[i].1.clone());
            i += 1;
        }
        let turn = Turn {
            content: self.content,
            reasoning: self.reasoning,
            tool_calls: out,
            usage: self.usage,
        };
        assert(turn@.tool_calls =~= finished(self@).tool_calls);
        turn
    }
}

/// The turn that a stream amounts to.
pub open spec fn finished(s: StreamV) -> TurnV {
    TurnV {
        content: s.content,
        reasoning: s.reasoning,
        tool_calls: s.calls.map_values(|c: (u64, CallV)| c.1),
        usage: s.usage,
    }
}

/// The stream after a sequence of chunks.
pub open spec fn streamed(chunks: Seq<json::Tree>) -> StreamV
    decreases chunks.len(),
{
    if chunks.len() == 0 {
        no_stream()
    } else {
        fed(streamed(chunks.drop_last()), chunks.last())
    }
}

/// The pieces of text of a sequence of chunks, one after another.
pub open spec fn pieces(chunks: Seq<json::Tree>, key: Seq<char>) -> Seq<char>
    decreases chunks.len(),
{
    if chunks.len() == 0 {
        Seq::empty()
    } else {
        with_piece(pieces(chunks.drop_last(), key), piece(chunks.last(), key))
    }
}

/// The indices of the calls rise.
pub open spec fn rising(calls: Seq<(u64, CallV)>) -> bool {
    forall|i: int, j: int| 0 <= i < j < calls.len() ==> (#[trigger] calls[i]).0 < (#[trigger] calls[j]).0
}

proof fn lemma_slot(calls: Seq<(u64, CallV)>, idx: u64, i: int)
    requires
        0 <= i <= calls.len(),
    ensures
        i <= slot_from(calls, idx, i) <= calls.len(),
        forall|k: int| i <= k < slot_from(calls, idx, i) ==> (#[trigger] calls[k]).0 < idx,
        slot_from(calls, idx, i) < calls.len() ==> calls[slot_from(calls, idx, i)].0 >= idx,
    decreases calls.len() - i,
{
    if i < calls.len() && calls[i].0 < idx {
        lemma_slot(calls, idx, i + 1);
    }
}

proof fn lemma_calls_rise(calls: Seq<(u64, CallV)>, tc: json::Tree)
    requires
        rising(calls),
    ensures
        rising(calls_with(calls, tc)),
{
    let idx = index_in(tc);
    lemma_slot(calls, idx, 0);
    let p = slot_from(calls, idx, 0);
    let next = calls_with(calls, tc);
    assert forall|i: int, j: int| 0 <= i < j < next.len() implies (#[trigger] next[i]).0 < (
    #[trigger] next[j]).0 by {
        if p < calls.len() && calls[p].0 == idx {
            assert(next[i].0 == calls[i].0);
            assert(next[j].0 == calls[j].0);
        } else {
            assert(i < p ==> next[i] == calls[i]);
            assert(i > p ==> next[i] == calls[i - 1]);
            assert(j < p ==> next[j] == calls[j]);
            assert(j > p ==> next[j] == calls[j - 1]);
            if p < calls.len() {
                assert(calls[p].0 > idx);
                assert(j > p + 1 ==> calls[p].0 < calls[j - 1].0);
            }
        }
    }
}

proof fn lemma_all_rise(calls: Seq<(u64, CallV)>, items: Seq<json::Tree>)
    requires
        rising(calls),
    ensures
        rising(calls_with_all(calls, items)),
    decreases items.len(),
{
    if items.len() > 0 {
        lemma_all_rise(calls, items.drop_last());
        lemma_calls_rise(calls_with_all(calls, items.drop_last()), items.last());
    }
}

/// A streamed answer is the pieces that came, one after another, and its tool calls
/// stand in the order of their indices, one for each.
pub proof fn law_stream_joins_its_pieces(chunks: Seq<json::Tree>)
    ensures
        streamed(chunks).content == pieces(chunks, "content"@),
        streamed(chunks).reasoning == pieces(chunks, "reasoning_content"@),
        rising(streamed(chunks).calls),
    decreases chunks.len(),
{
    if chunks.len() > 0 {
        let before = chunks.drop_last();
        law_stream_joins_its_pieces(before);
        if let Some(d) = delta_in(chunks.last()) {
            lemma_all_rise(
                streamed(before).calls,
                json::elements_of(json::field(d, "tool_calls"@)),
            );
        }
    }
}

/// A piece of a call goes to the call of its index, whose arguments grow by it, and
/// leaves the others as they are.
pub proof fn law_piece_goes_to_its_call(calls: Seq<(u64, CallV)>, tc: json::Tree, i: int)
    requires
        rising(calls),
        0 <= i < calls.len(),
    ensures
        calls[i].0 != index_in(tc) ==> calls_with(calls, tc).contains(calls[i]),
        calls[i].0 == index_in(tc) ==> calls_with(calls, tc) == calls.update(
            i,
            (calls[i].0, call_with(calls[i].1, tc)),
        ),
{
    let idx = index_in(tc);
    lemma_slot(calls, idx, 0);
    let p = slot_from(calls, idx, 0);
    let next = calls_with(calls, tc);
    if calls[i].0 == idx {
        if p < i {
            assert(calls[p].0 < calls[i].0);
        }
    } else if p < calls.len() && calls[p].0 == idx {
        assert(next[i] == calls[i]);
    } else if i < p {
        assert(next[i] == calls[i]);
    } else {
        assert(next[i + 1] == calls[i]);
    }
}

} // verus!
