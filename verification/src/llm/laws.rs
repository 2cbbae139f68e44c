//! What a turn of the model holds, from what its service sent.

use crate::json;
use crate::json::names;
use crate::llm;
use crate::session;
use crate::text;
use crate::usage;
use vstd::prelude::*;

verus! {

/// A chunk makes the content of the stream grow by exactly the text that it has for it,
/// white space included, and that text is what is shown; likewise what the model
/// thought. Where it has none, or an empty one, nothing is added and nothing shown.
pub proof fn law_a_chunk_adds_its_text(s: llm::StreamV, chunk: json::Tree, t: Seq<char>)
    ensures
        llm::delta_has(chunk, "content"@, t) ==> llm::fed(s, chunk).content == s.content + t,
        llm::delta_has(chunk, "content"@, t) && t.len() > 0 ==> llm::piece(chunk, "content"@)
            == Some(t),
        llm::delta_has(chunk, "reasoning_content"@, t) ==> llm::fed(s, chunk).reasoning
            == s.reasoning + t,
        llm::delta_has(chunk, "reasoning_content"@, t) && t.len() > 0 ==> llm::piece(
            chunk,
            "reasoning_content"@,
        ) == Some(t),
        (forall|u: Seq<char>| #[trigger] llm::delta_has(chunk, "content"@, u) ==> u.len() == 0)
            ==> llm::fed(s, chunk).content == s.content && llm::piece(chunk, "content"@) is None,
        (forall|u: Seq<char>| #[trigger]
            llm::delta_has(chunk, "reasoning_content"@, u) ==> u.len() == 0) ==> llm::fed(
            s,
            chunk,
        ).reasoning == s.reasoning && llm::piece(chunk, "reasoning_content"@) is None,
{
    if t.len() == 0 {
        assert(s.content + t =~= s.content);
        assert(s.reasoning + t =~= s.reasoning);
    }
    if let Some(u) = llm::piece(chunk, "content"@) {
        assert(llm::delta_has(chunk, "content"@, u));
    }
    if let Some(u) = llm::piece(chunk, "reasoning_content"@) {
        assert(llm::delta_has(chunk, "reasoning_content"@, u));
    }
}

/// The content of a turn is the texts that its chunks brought, one after the other.
pub proof fn law_the_content_is_what_the_chunks_brought(
    chunks: Seq<json::Tree>,
    ts: Seq<Seq<char>>,
)
    requires
        ts.len() == chunks.len(),
        forall|i: int| 0 <= i < ts.len() ==> llm::delta_has(chunks[i], "content"@, #[trigger] ts[i]),
    ensures
        llm::finished(llm::streamed(chunks)).content == ts.flatten(),
    decreases chunks.len(),
{
    ts.lemma_flatten_and_flatten_alt_are_equivalent();
    if chunks.len() > 0 {
        let before = chunks.drop_last();
        let us = ts.drop_last();
        assert forall|i: int| 0 <= i < us.len() implies llm::delta_has(
            before[i],
            "content"@,
            #[trigger] us[i],
        ) by {
            assert(us[i] == ts[i]);
        }
        law_the_content_is_what_the_chunks_brought(before, us);
        us.lemma_flatten_and_flatten_alt_are_equivalent();
        assert(llm::delta_has(chunks.last(), "content"@, ts[ts.len() - 1]));
        law_a_chunk_adds_its_text(llm::streamed(before), chunks.last(), ts.last());
    }
}

/// The figures under their names, zero where one is left out.
pub open spec fn counts(v: json::Tree, prompt: u64, completion: u64) -> bool {
    &&& v is Obj
    &&& json::field(v, "prompt_tokens"@) == Some(json::Tree::Pos(prompt)) || (prompt == 0
        && json::field(v, "prompt_tokens"@) is None)
    &&& json::field(v, "completion_tokens"@) == Some(json::Tree::Pos(completion)) || (completion
        == 0 && json::field(v, "completion_tokens"@) is None)
}

/// The usage of a streamed turn is the one that the latest chunk with figures tells; a
/// chunk without leaves it.
pub proof fn law_the_latest_usage_counts(
    s: llm::StreamV,
    chunk: json::Tree,
    u: json::Tree,
    prompt: u64,
    completion: u64,
)
    ensures
        json::field(chunk, "usage"@) == Some(u) && counts(u, prompt, completion) ==> llm::fed(
            s,
            chunk,
        ).usage == Some(
            usage::ApiUsage { prompt_tokens: prompt, completion_tokens: completion },
        ),
        json::field(chunk, "usage"@) is None || json::field(chunk, "usage"@) == Some(
            json::Tree::Null,
        ) ==> llm::fed(s, chunk).usage == s.usage,
{
}

/// What a piece of a tool call makes of the call: an id and a name that are not empty
/// take the place of the ones before, the arguments grow by those that came, and what
/// the piece does not have stays.
pub proof fn law_a_call_grows_by_its_pieces(c: llm::CallV, tc: json::Tree, x: Seq<char>)
    ensures
        json::field(tc, "id"@) == Some(json::Tree::Str(x)) && x.len() > 0 ==> llm::call_with(
            c,
            tc,
        ).id == x,
        json::field(tc, "id"@) is None ==> llm::call_with(c, tc).id == c.id,
        json::field(tc, "id"@) == Some(json::Tree::Str(Seq::empty())) ==> llm::call_with(c, tc).id
            == c.id,
        json::field(tc, "function"@) is None ==> llm::call_with(c, tc).name == c.name
            && llm::call_with(c, tc).arguments == c.arguments,
        json::field(tc, "function"@) matches Some(f) ==> {
            &&& json::field(f, "name"@) == Some(json::Tree::Str(x)) && x.len() > 0
                ==> llm::call_with(c, tc).name == x
            &&& json::field(f, "name"@) is None ==> llm::call_with(c, tc).name == c.name
            &&& json::field(f, "name"@) == Some(json::Tree::Str(Seq::empty())) ==> llm::call_with(
                c,
                tc,
            ).name == c.name
            &&& json::field(f, "arguments"@) == Some(json::Tree::Str(x)) ==> llm::call_with(
                c,
                tc,
            ).arguments == c.arguments + x
            &&& json::field(f, "arguments"@) is None ==> llm::call_with(c, tc).arguments
                == c.arguments
        },
{
}

/// A piece with an index that no call has begins a call of that index, which has what
/// the piece has; the others stay.
pub proof fn law_a_new_index_begins_a_call(
    calls: Seq<(u64, llm::CallV)>,
    tc: json::Tree,
    idx: u64,
    id: Seq<char>,
    name: Seq<char>,
    arguments: Seq<char>,
)
    requires
        llm::rising(calls),
        forall|i: int| 0 <= i < calls.len() ==> (#[trigger] calls[i]).0 != idx,
        json::field(tc, "index"@) == Some(json::Tree::Pos(idx)) || (idx == 0 && json::field(
            tc,
            "index"@,
        ) is None),
        json::field(tc, "id"@) == Some(json::Tree::Str(id)),
        json::field(tc, "function"@) matches Some(f) && json::field(f, "name"@) == Some(
            json::Tree::Str(name),
        ) && json::field(f, "arguments"@) == Some(json::Tree::Str(arguments)),
    ensures
        llm::calls_with(calls, tc).len() == calls.len() + 1,
        llm::calls_with(calls, tc).contains((idx, llm::CallV { id, name, arguments })),
        forall|i: int|
            0 <= i < calls.len() ==> llm::calls_with(calls, tc).contains(#[trigger] calls[i]),
        llm::rising(llm::calls_with(calls, tc)),
{
    llm::lemma_slot(calls, idx, 0);
    let p = llm::slot_from(calls, idx, 0);
    let next = llm::calls_with(calls, tc);
    let call = llm::call_with(llm::empty_call(), tc);
    assert(call.id =~= id);
    assert(call.name =~= name);
    assert(call.arguments =~= arguments);
    assert(next[p] == (idx, llm::CallV { id, name, arguments }));
    assert forall|i: int| 0 <= i < calls.len() implies next.contains(#[trigger] calls[i]) by {
        if i < p {
            assert(next[i] == calls[i]);
        } else {
            assert(next[i + 1] == calls[i]);
        }
    }
    llm::lemma_calls_rise(calls, tc);
}

/// A piece with the index of a call goes to that call, and to no other.
pub proof fn law_a_known_index_goes_on_with_its_call(
    calls: Seq<(u64, llm::CallV)>,
    tc: json::Tree,
    i: int,
    more: Seq<char>,
)
    requires
        llm::rising(calls),
        0 <= i < calls.len(),
        json::field(tc, "index"@) == Some(json::Tree::Pos(calls[i].0)),
        json::field(tc, "id"@) is None,
        json::field(tc, "function"@) matches Some(f) && json::field(f, "name"@) is None
            && json::field(f, "arguments"@) == Some(json::Tree::Str(more)),
    ensures
        llm::calls_with(calls, tc) == calls.update(
            i,
            (
                calls[i].0,
                llm::CallV { arguments: calls[i].1.arguments + more, ..calls[i].1 },
            ),
        ),
{
    llm::law_piece_goes_to_its_call(calls, tc, i);
}

/// The pieces of a chunk are taken in one by one, in order; a chunk without any leaves
/// the calls.
pub proof fn law_pieces_are_taken_in_order(
    s: llm::StreamV,
    chunk: json::Tree,
    delta: json::Tree,
    choices: Seq<json::Tree>,
    pieces: Seq<json::Tree>,
    tc: json::Tree,
)
    requires
        json::field(chunk, "choices"@) == Some(json::Tree::Arr(choices)),
        choices.len() > 0,
        json::field(choices[0], "delta"@) == Some(delta),
    ensures
        json::field(delta, "tool_calls"@) is None ==> llm::fed(s, chunk).calls == s.calls,
        json::field(delta, "tool_calls"@) == Some(json::Tree::Arr(Seq::empty().push(tc)))
            ==> llm::fed(s, chunk).calls == llm::calls_with(s.calls, tc),
        llm::calls_with_all(s.calls, pieces.push(tc)) == llm::calls_with(
            llm::calls_with_all(s.calls, pieces),
            tc,
        ),
{
    assert(pieces.push(tc).drop_last() =~= pieces);
    let one = Seq::<json::Tree>::empty().push(tc);
    assert(one.drop_last() =~= Seq::empty());
    reveal_with_fuel(llm::calls_with_all, 2);
}

/// The turn that a stream amounts to: its content and thoughts, and its calls in the
/// order of their index.
pub proof fn law_a_finished_stream_is_the_turn(s: llm::StreamV)
    ensures
        llm::finished(s).content == s.content,
        llm::finished(s).reasoning == s.reasoning,
        llm::finished(s).usage == s.usage,
        llm::finished(s).tool_calls.len() == s.calls.len(),
        forall|i: int|
            0 <= i < s.calls.len() ==> (#[trigger] llm::finished(s).tool_calls[i])
                == s.calls[i].1,
{
}

/// The object is the tool call, with what it leaves out filled in.
pub open spec fn is_whole_call(v: json::Tree, c: llm::CallV) -> bool {
    &&& json::field(v, "function"@) matches Some(f) && json::field(f, "name"@) == Some(
        json::Tree::Str(c.name),
    ) && (json::field(f, "arguments"@) == Some(json::Tree::Str(c.arguments)) || (json::field(
        f,
        "arguments"@,
    ) is None && c.arguments == "{}"@))
    &&& json::field(v, "id"@) == Some(json::Tree::Str(c.id)) || (json::field(v, "id"@) is None
        && c.id == "call_0"@)
}

proof fn lemma_whole_calls(items: Seq<json::Tree>, calls: Seq<llm::CallV>)
    requires
        items.len() == calls.len(),
        forall|i: int| 0 <= i < items.len() ==> is_whole_call(items[i], #[trigger] calls[i]),
    ensures
        llm::calls_in(items) == calls,
    decreases items.len(),
{
    if items.len() > 0 {
        let before = items.drop_last();
        let cs = calls.drop_last();
        assert forall|i: int| 0 <= i < before.len() implies is_whole_call(
            before[i],
            #[trigger] cs[i],
        ) by {
            assert(cs[i] == calls[i]);
        }
        lemma_whole_calls(before, cs);
        let c = calls[calls.len() - 1];
        assert(is_whole_call(items.last(), c));
        assert(cs.push(c) =~= calls);
        assert(llm::call_in(items.last()) == Some(c));
    } else {
        assert(calls =~= Seq::empty());
    }
}

/// An answer that comes whole is read from its first choice: the content and the tool
/// calls of its message, and the usage that it tells. One that tells an error is that
/// error.
pub proof fn law_a_whole_answer_is_its_first_choice(
    v: json::Tree,
    choices: Seq<json::Tree>,
    msg: json::Tree,
    content: Seq<char>,
    calls: Seq<llm::CallV>,
    items: Seq<json::Tree>,
    u: json::Tree,
    prompt: u64,
    completion: u64,
)
    requires
        json::field(v, "choices"@) == Some(json::Tree::Arr(choices)),
        choices.len() > 0,
        json::field(choices[0], "message"@) == Some(msg),
        json::field(msg, "content"@) == Some(json::Tree::Str(content)) || (content.len() == 0
            && (json::field(msg, "content"@) is None || json::field(msg, "content"@) == Some(
            json::Tree::Null,
        ))),
        json::field(msg, "tool_calls"@) == Some(json::Tree::Arr(items)) || (items.len() == 0
            && json::field(msg, "tool_calls"@) is None),
        items.len() == calls.len(),
        forall|i: int| 0 <= i < items.len() ==> is_whole_call(items[i], #[trigger] calls[i]),
        json::field(v, "usage"@) == Some(u),
        counts(u, prompt, completion),
    ensures
        json::field(v, "error"@) is None ==> llm::completion(v) == Ok::<llm::TurnV, Seq<char>>(
            llm::TurnV {
                content,
                reasoning: Seq::empty(),
                tool_calls: calls,
                usage: Some(
                    usage::ApiUsage { prompt_tokens: prompt, completion_tokens: completion },
                ),
            },
        ),
        json::field(v, "error"@) matches Some(e) ==> llm::completion(v) == Err::<
            llm::TurnV,
            Seq<char>,
        >("LLM 错误："@ + json::json_text(e)),
{
    lemma_whole_calls(items, calls);
    assert(json::elements_of(json::field(msg, "tool_calls"@)) =~= items);
    assert(json::text_at(msg, "content"@) =~= content);
}

/// What is asked of the model's service: the model, the messages in order, whether to
/// stream, and the tools to choose from where there are any. A streamed answer is to
/// tell its usage.
pub proof fn law_the_request_says_it_all(
    model: Seq<char>,
    stream: bool,
    msgs: Seq<session::MsgV>,
    tools: Seq<json::Tree>,
)
    ensures
        ({
            let v = llm::body_tree(model, stream, msgs, tools);
            &&& json::field(v, "model"@) == Some(json::Tree::Str(model))
            &&& json::field(v, "stream"@) == Some(json::Tree::Bool(stream))
            &&& json::field(v, "messages"@) matches Some(json::Tree::Arr(sent)) && sent.len()
                == msgs.len()
            &&& tools.len() > 0 ==> json::field(v, "tools"@) == Some(json::Tree::Arr(tools))
                && json::field(v, "tool_choice"@) == Some(json::Tree::Str("auto"@))
            &&& tools.len() == 0 ==> json::field(v, "tools"@) is None && json::field(
                v,
                "tool_choice"@,
            ) is None
            &&& stream ==> (json::field(v, "stream_options"@) matches Some(o) && json::field(
                o,
                "include_usage"@,
            ) == Some(json::Tree::Bool(true)))
            &&& !stream ==> json::field(v, "stream_options"@) is None
        }),
{
    names::lemma_apart();
    reveal_with_fuel(json::field_from, 7);
}

/// A line of a stream counts where it is a field of data: then it is the end, or the
/// JSON after the colon. Comments, empty lines, other fields and what is no JSON are
/// passed over.
pub proof fn law_only_data_counts(line: Seq<char>, d: Seq<char>)
    ensures
        text::trimmed(line) == "data:"@ + d ==> llm::line_in(line) == if text::trimmed(d)
            == "[DONE]"@ {
            llm::LineV::End
        } else {
            match json::json_read(text::trimmed(d)) {
                Some(chunk) => llm::LineV::Chunk(chunk),
                None => llm::LineV::Skip,
            }
        },
        text::trimmed(line).len() == 0 ==> llm::line_in(line) is Skip,
        text::trimmed(line).len() > 0 && text::trimmed(line)[0] != 'd' ==> llm::line_in(line)
            is Skip,
{
    reveal_strlit("data:");
    let t = text::trimmed(line);
    if t == "data:"@ + d {
        assert(t[0] == 'd');
        assert(t.skip("data:"@.len() as int) =~= d);
        assert("data:"@.is_prefix_of(t)) by {
            assert(t.subrange(0, "data:"@.len() as int) =~= "data:"@);
        }
    }
    if t.len() > 0 && t[0] != 'd' {
        assert("data:"@[0] == 'd');
    }
}

/// An error of the service is told with its code, and the message in it where it has
/// one; otherwise with the first four hundred characters of what came.
pub proof fn law_an_error_is_told_with_its_code(
    code: u16,
    body: Seq<char>,
    start: Seq<char>,
    m: Seq<char>,
)
    requires
        start == if body.len() <= 400 {
            body
        } else {
            body.take(400)
        },
    ensures
        ({
            &&& json::json_read(start) matches Some(v)
            &&& json::field(v, "error"@) matches Some(e)
            &&& json::field(e, "message"@) == Some(json::Tree::Str(m))
        }) ==> llm::status_text(code, body) == "LLM HTTP "@ + text::decimal(code as nat) + "："@
            + m,
        json::json_read(start) is None ==> llm::status_text(code, body) == "LLM HTTP "@
            + text::decimal(code as nat) + "："@ + start,
{
}

/// The calls of two lists in a row are those of the one, then those of the other; what
/// names no function is no call.
pub proof fn law_calls_are_read_one_by_one(a: Seq<json::Tree>, b: Seq<json::Tree>)
    ensures
        llm::calls_in(a + b) == llm::calls_in(a) + llm::calls_in(b),
        b.len() == 1 && (json::field(b[0], "function"@) is None || (json::field(b[0], "function"@)
            matches Some(f) && json::field(f, "name"@) is None)) ==> llm::calls_in(a + b)
            == llm::calls_in(a),
    decreases b.len(),
{
    if b.len() == 0 {
        assert(a + b =~= a);
    } else {
        law_calls_are_read_one_by_one(a, b.drop_last());
        assert((a + b).drop_last() =~= a + b.drop_last());
        assert((a + b).last() == b.last());
        assert(llm::calls_in(a + b) =~= llm::calls_in(a) + llm::calls_in(b));
        if b.len() == 1 {
            assert(b.drop_last() =~= Seq::empty());
            assert(llm::calls_in(b.drop_last()) =~= Seq::empty());
            assert(a + b.drop_last() =~= a);
        }
    }
}

/// What is noted of a request tells the model, how many messages go to it, and whether
/// the answer is streamed.
pub proof fn law_a_request_is_noted(model: Seq<char>, n: nat)
    ensures
        llm::request_note(model, n, true) == "[harness] LLM ← "@ + model + " ("@ + text::decimal(n)
            + " msgs, stream="@ + "true"@ + ")"@,
        llm::request_note(model, n, false) == "[harness] LLM ← "@ + model + " ("@ + text::decimal(n)
            + " msgs, stream="@ + "false"@ + ")"@,
{
}

} // verus!
