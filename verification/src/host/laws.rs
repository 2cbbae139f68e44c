//! What goes over the line to the host, and how what comes from it is read.

use crate::host;
use crate::json;
use crate::json::names;
use crate::text;
use vstd::prelude::*;

verus! {

/// A call goes out under its number, with what is called and with what.
pub proof fn law_a_call_says_what_is_called(
    id: u64,
    ns: Seq<char>,
    method: Seq<char>,
    args: json::Tree,
)
    ensures
        ({
            let v = host::call_frame(id, ns, method, args);
            &&& json::field(v, "jsonrpc"@) == Some(json::Tree::Str("2.0"@))
            &&& json::field(v, "id"@) == Some(json::Tree::Pos(id))
            &&& json::field(v, "method"@) == Some(json::Tree::Str("onethu.call"@))
            &&& json::field(v, "params"@) matches Some(p) && json::field(p, "ns"@) == Some(
                json::Tree::Str(ns),
            ) && json::field(p, "method"@) == Some(json::Tree::Str(method)) && json::field(
                p,
                "args"@,
            ) == Some(args)
        }),
{
    names::lemma_apart();
    reveal_with_fuel(json::field_from, 5);
}

/// An answer goes out under the id of its request: with the result, or with the message
/// of what went wrong. A notification has no id.
pub proof fn law_an_answer_goes_by_its_id(
    id: json::Tree,
    result: json::Tree,
    message: Seq<char>,
    method: Seq<char>,
    params: json::Tree,
)
    ensures
        ({
            let v = host::ok_frame(id, result);
            &&& json::field(v, "jsonrpc"@) == Some(json::Tree::Str("2.0"@))
            &&& json::field(v, "id"@) == Some(id)
            &&& json::field(v, "result"@) == Some(result)
            &&& json::field(v, "error"@) is None
        }),
        ({
            let v = host::err_frame(id, message);
            &&& json::field(v, "jsonrpc"@) == Some(json::Tree::Str("2.0"@))
            &&& json::field(v, "id"@) == Some(id)
            &&& json::field(v, "result"@) is None
            &&& json::field(v, "error"@) matches Some(e) && json::field(e, "message"@) == Some(
                json::Tree::Str(message),
            ) && json::field(e, "code"@) == Some(json::Tree::Neg(-32000i64))
        }),
        ({
            let v = host::note_frame(method, params);
            &&& json::field(v, "jsonrpc"@) == Some(json::Tree::Str("2.0"@))
            &&& json::field(v, "id"@) is None
            &&& json::field(v, "method"@) == Some(json::Tree::Str(method))
            &&& json::field(v, "params"@) == Some(params)
        }),
{
    names::lemma_apart();
    reveal_with_fuel(json::field_from, 5);
}

/// A message with a method is a request where it has an id, and a notification where it
/// has none. One without a method is the answer to the call of its number: the result, or
/// what went wrong.
pub proof fn law_a_message_is_what_its_fields_say(msg: json::Tree, method: Seq<char>, id: u64)
    ensures
        json::field(msg, "method"@) == Some(json::Tree::Str(method)) && method != "interrupt"@ ==> {
            let params = match json::field(msg, "params"@) {
                Some(p) => p,
                None => json::Tree::Null,
            };
            &&& json::field(msg, "id"@) matches Some(x) ==> host::routed(msg) == if x is Null {
                host::Route::Notify(method, params)
            } else {
                host::Route::Request(x, method, params)
            }
            &&& json::field(msg, "id"@) is None ==> host::routed(msg) == host::Route::Notify(
                method,
                params,
            )
        },
        json::field(msg, "method"@) is None && json::field(msg, "id"@) == Some(
            json::Tree::Pos(id),
        ) ==> host::routed(msg) == host::Route::Answer(
            id,
            match json::field(msg, "error"@) {
                None => Ok(
                    match json::field(msg, "result"@) {
                        Some(r) => r,
                        None => json::Tree::Null,
                    },
                ),
                Some(e) => Err(
                    match json::field(e, "message"@) {
                        Some(json::Tree::Str(m)) => m,
                        _ => json::json_text(e),
                    },
                ),
            },
        ),
        json::field(msg, "method"@) is None && json::field(msg, "id"@) is None ==> host::routed(msg)
            is Nothing,
        json::field(msg, "method"@) == Some(json::Tree::Str("interrupt"@)) ==> host::routed(msg)
            is Nothing && host::is_interrupt(msg),
        json::field(msg, "method"@) != Some(json::Tree::Str("interrupt"@)) ==> !host::is_interrupt(
            msg,
        ),
{
}

/// A line is the JSON of its message, and ends there.
pub proof fn law_a_line_is_one_message(v: json::Tree)
    ensures
        host::frame_line(v) == json::json_text(v) + "\n"@,
        host::message_of(json::Tree::Null) == json::json_text(json::Tree::Null),
        v matches json::Tree::Str(s) ==> host::message_of(v) == s,
{
}

/// What is said of an answer that is late tells how long it was waited for, in seconds,
/// and what is noted before that tells the call.
pub proof fn law_a_late_answer_is_told_in_seconds(
    s: u64,
    ns: Seq<char>,
    method: Seq<char>,
    id: u64,
)
    requires
        s < 1_000_000,
    ensures
        host::timeout_text((s * 1000) as u64) == "宿主桥应答超时（"@ + text::decimal(s as nat) + "s）"@,
        host::late_text(ns, method, id) == "[harness] ⏸ 桥调用 "@ + ns + "."@ + method + "（#"@
            + text::decimal(id as nat) + "）已等 5s 仍无回执"@,
{
}

} // verus!
