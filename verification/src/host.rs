//! The border to the host: the calls that are made to it, the messages that come
//! from it, and their JSON-RPC framing. What carries the lines is not here.

use crate::json;
use crate::json::{Json, Num, Rec};
use crate::text;
use vstd::prelude::*;

pub mod laws;

verus! {

/// What a host answers to a call.
pub type Reply = Result<json::Tree, Seq<char>>;

pub open spec fn reply_of(r: Result<Json, String>) -> Reply {
    match r {
        Ok(v) => Ok(v@),
        Err(e) => Err(e@),
    }
}

/// The values of a sequence of numbers.
pub open spec fn numbers(v: Seq<Num>) -> Seq<json::Tree> {
    v.map_values(|n: Num| n@)
}

/// One thing that was asked of a host, with what came of it.
pub enum Exchange {
    Call { ns: Seq<char>, method: Seq<char>, args: json::Tree, reply: Reply },
    Pause { ms: u64 },
    Total { amounts: Seq<json::Tree>, total: json::Tree },
}

/// The data side of a host. Its log is what was asked of it so far.
pub trait Host {
    /// What was asked so far. It is ghost, and an impl that is verified has to keep it:
    /// with this default no method meets its contract. A host in ordinary Rust, which
    /// is not verified, owes the same of what it does but has no log to keep.
    closed spec fn log(&self) -> Seq<Exchange> {
        Seq::empty()
    }

    /// Calls a method of the host.
    fn call(&mut self, ns: &str, method: &str, args: Json) -> (r: Result<Json, String>)
        ensures
            final(self).log() == old(self).log().push(
                Exchange::Call { ns: ns@, method: method@, args: args@, reply: reply_of(r) },
            ),
    ;

    /// Calls a method with a time limit, where the host has one.
    fn call_timeout(&mut self, ns: &str, method: &str, args: Json, timeout_ms: u64) -> (r: Result<
        Json,
        String,
    >)
        ensures
            final(self).log() == old(self).log().push(
                Exchange::Call { ns: ns@, method: method@, args: args@, reply: reply_of(r) },
            ),
    {
        let _ = timeout_ms;
        self.call(ns, method, args)
    }

    /// The user has asked to break off.
    fn interrupted(&self) -> bool;

    /// Forgets an earlier wish to break off, where the host keeps it.
    fn reset_interrupt(&self) {
    }

    /// Waits, so that calls to a service with a rate limit do not follow too closely.
    fn pause(&mut self, ms: u64)
        ensures
            final(self).log() == old(self).log().push(Exchange::Pause { ms }),
    ;

    /// Adds amounts of money up, in order; null where the sum is not finite.
    fn total(&mut self, amounts: &Vec<Num>) -> (r: Json)
        ensures
            final(self).log() == old(self).log().push(
                Exchange::Total { amounts: numbers(amounts@), total: r@ },
            ),
    ;
}

/// The notification side of a host.
pub trait Emit {
    fn notify(&self, method: &str, params: Json);
}

/// A message from the host, as the main loop sees it.
#[derive(Debug)]
#[allow(inconsistent_fields)]
pub enum Incoming {
    Request { id: Json, method: String, params: Json },
    Notify { method: String, params: Json },
    Response { id: u64, ok: bool, value: Json },
}

/// The value of an `Incoming`.
#[allow(inconsistent_fields)]
pub enum IncomingV {
    Request { id: json::Tree, method: Seq<char>, params: json::Tree },
    Notify { method: Seq<char>, params: json::Tree },
    Response { id: u64, ok: bool, value: json::Tree },
}

impl View for Incoming {
    type V = IncomingV;

    open spec fn view(&self) -> IncomingV {
        match self {
            Incoming::Request { id, method, params } => IncomingV::Request {
                id: id@,
                method: method@,
                params: params@,
            },
            Incoming::Notify { method, params } => IncomingV::Notify {
                method: method@,
                params: params@,
            },
            Incoming::Response { id, ok, value } => IncomingV::Response {
                id: *id,
                ok: *ok,
                value: value@,
            },
        }
    }
}

/// Requests that came while an answer was awaited.
pub type Deferred = Vec<(Json, String, Json)>;

/// What a message from the host is for.
#[derive(Debug)]
#[allow(inconsistent_fields)]
pub enum Routed {
    /// A request, for the main loop to answer.
    Request { id: Json, method: String, params: Json },
    /// A notification.
    Notify { method: String, params: Json },
    /// The answer to the call of that number.
    Answer { id: u64, reply: Result<Json, String> },
    /// A wish to break off, which the reading side has already noted, or no message.
    Nothing,
}

/// The value of a `Routed`.
pub enum Route {
    Request(json::Tree, Seq<char>, json::Tree),
    Notify(Seq<char>, json::Tree),
    Answer(u64, Reply),
    Nothing,
}

impl View for Routed {
    type V = Route;

    open spec fn view(&self) -> Route {
        match self {
            Routed::Request { id, method, params } => Route::Request(id@, method@, params@),
            Routed::Notify { method, params } => Route::Notify(method@, params@),
            Routed::Answer { id, reply } => Route::Answer(*id, reply_of(*reply)),
            Routed::Nothing => Route::Nothing,
        }
    }
}

/// The text of an error: its message, or the whole of it as JSON.
pub open spec fn error_text(e: json::Tree) -> Seq<char> {
    match json::str_of(json::field(e, "message"@)) {
        Some(m) => m,
        None => json::json_text(e),
    }
}

/// The answer that a response carries.
pub open spec fn answer_in(msg: json::Tree) -> Reply {
    match json::field(msg, "error"@) {
        Some(e) => Err(error_text(e)),
        None => Ok(json::value_at(msg, "result"@)),
    }
}

/// A message that asks to break off.
pub open spec fn is_interrupt(msg: json::Tree) -> bool {
    json::str_of(json::field(msg, "method"@)) == Some("interrupt"@)
}

/// What a message is for: one with a method is a request where it has an id other
/// than null, and a notification where it has none; one without a method but with a
/// number for its id is an answer.
pub open spec fn routed(msg: json::Tree) -> Route {
    match json::str_of(json::field(msg, "method"@)) {
        Some(method) => if method == "interrupt"@ {
            Route::Nothing
        } else {
            let params = json::value_at(msg, "params"@);
            let id = json::value_at(msg, "id"@);
            if id is Null {
                Route::Notify(method, params)
            } else {
                Route::Request(id, method, params)
            }
        },
        None => match json::u64_of(json::field(msg, "id"@)) {
            Some(id) => Route::Answer(id, answer_in(msg)),
            None => Route::Nothing,
        },
    }
}

fn error_message(e: &Json) -> (r: String)
    ensures
        r@ == error_text(e@),
{
    match e.text_option("message") {
        Some(m) => m,
        None => json::print(e),
    }
}

/// The answer that a response carries.
pub fn read_answer(msg: &Json) -> (r: Result<Json, String>)
    ensures
        reply_of(r) == answer_in(msg@),
{
    match msg.get("error") {
        Some(e) => Err(error_message(e)),
        None => Ok(msg.value("result")),
    }
}

/// What a message from the host is for.
pub fn route(msg: &Json) -> (r: Routed)
    ensures
        r@ == routed(msg@),
{
    match msg.text_option("method") {
        Some(method) => {
            if text::same(method.as_str(), "interrupt") {
                return Routed::Nothing;
            }
            let params = msg.value("params");
            let id = msg.value("id");
            if id.is_null() {
                Routed::Notify { method, params }
            } else {
                Routed::Request { id, method, params }
            }
        },
        None => match msg.get("id") {
            Some(v) => match v.as_u64() {
                Some(id) => Routed::Answer { id, reply: read_answer(msg) },
                None => Routed::Nothing,
            },
            None => Routed::Nothing,
        },
    }
}

/// What a line from the host is for; nothing where it is not JSON.
pub fn route_line(line: &str) -> (r: Routed)
    ensures
        r@ == (match json::json_read(line@) {
            Some(msg) => routed(msg),
            None => Route::Nothing,
        }),
{
    match json::parse(line) {
        Some(msg) => route(&msg),
        None => Routed::Nothing,
    }
}

/// A line that asks to break off: JSON whose method is that, however it is spaced. The
/// reading side notes it before anything else.
pub fn asks_interrupt(line: &str) -> (r: bool)
    ensures
        r == (match json::json_read(line@) {
            Some(msg) => is_interrupt(msg),
            None => false,
        }),
{
    match json::parse(line) {
        Some(msg) => match msg.text_option("method") {
            Some(method) => text::same(method.as_str(), "interrupt"),
            None => false,
        },
        None => false,
    }
}

pub open spec fn ok_frame(id: json::Tree, result: json::Tree) -> json::Tree {
    json::Tree::Obj(json::no_fields().push(("jsonrpc"@, json::Tree::Str("2.0"@))).push(("id"@, id)).push(("result"@, result)))
}

/// The answer to a request.
pub fn reply_ok(id: &Json, result: Json) -> (r: Json)
    ensures
        r@ == ok_frame(id@, result@),
{
    Rec::new().text("jsonrpc", "2.0").with("id", id.clone()).with("result", result).done()
}

pub open spec fn err_frame(id: json::Tree, message: Seq<char>) -> json::Tree {
    json::Tree::Obj(
        json::no_fields().push(("jsonrpc"@, json::Tree::Str("2.0"@))).push(("id"@, id)).push((
                "error"@,
                json::Tree::Obj(
                    json::no_fields().push(("code"@, json::int_tree(-32000))).push(("message"@, json::Tree::Str(message))),
                ),
            )),
    )
}

/// The refusal of a request.
pub fn reply_err(id: &Json, message: &str) -> (r: Json)
    ensures
        r@ == err_frame(id@, message@),
{
    let error = Rec::new().whole("code", -32000).text("message", message).done();
    Rec::new().text("jsonrpc", "2.0").with("id", id.clone()).with("error", error).done()
}

pub open spec fn note_frame(method: Seq<char>, params: json::Tree) -> json::Tree {
    json::Tree::Obj(
        json::no_fields().push(("jsonrpc"@, json::Tree::Str("2.0"@))).push(("method"@, json::Tree::Str(method))).push(("params"@, params)),
    )
}

/// A notification.
pub fn notification(method: &str, params: Json) -> (r: Json)
    ensures
        r@ == note_frame(method@, params@),
{
    Rec::new().text("jsonrpc", "2.0").text("method", method).with("params", params).done()
}

pub open spec fn call_frame(id: u64, ns: Seq<char>, method: Seq<char>, args: json::Tree) -> json::Tree {
    json::Tree::Obj(
        json::no_fields().push(("jsonrpc"@, json::Tree::Str("2.0"@))).push(("id"@, json::Tree::Pos(id))).push(("method"@, json::Tree::Str("onethu.call"@))).push((
                "params"@,
                json::Tree::Obj(
                    json::no_fields().push(("ns"@, json::Tree::Str(ns))).push(("method"@, json::Tree::Str(method))).push(("args"@, args)),
                ),
            )),
    )
}

/// The request that carries a call to the host.
pub fn call_request(id: u64, ns: &str, method: &str, args: Json) -> (r: Json)
    ensures
        r@ == call_frame(id, ns@, method@, args@),
{
    let params = Rec::new().text("ns", ns).text("method", method).with("args", args).done();
    Rec::new().text("jsonrpc", "2.0").pos("id", id).text("method", "onethu.call").with(
        "params",
        params,
    ).done()
}

pub open spec fn frame_line(v: json::Tree) -> Seq<char> {
    json::json_text(v) + "\n"@
}

/// A message as it goes over the wire: one line.
pub fn line_of(v: &Json) -> (r: String)
    ensures
        r@ == frame_line(v@),
{
    text::cat(json::print(v).as_str(), "\n")
}

pub open spec fn timeout_text(timeout_ms: u64) -> Seq<char> {
    "宿主桥应答超时（"@ + text::decimal((timeout_ms / 1000) as nat) + "s）"@
}

/// What is said of a call whose answer did not come in time.
pub fn timeout_message(timeout_ms: u64) -> (r: String)
    ensures
        r@ == timeout_text(timeout_ms),
{
    text::cat3("宿主桥应答超时（", text::write_u64(timeout_ms / 1000).as_str(), "s）")
}

pub open spec fn late_text(ns: Seq<char>, method: Seq<char>, id: u64) -> Seq<char> {
    "[harness] ⏸ 桥调用 "@ + ns + "."@ + method + "（#"@ + text::decimal(id as nat)
        + "）已等 5s 仍无回执"@
}

/// What is noted of a call that still waits after five seconds.
pub fn late_message(ns: &str, method: &str, id: u64) -> (r: String)
    ensures
        r@ == late_text(ns@, method@, id),
{
    let mut s = text::cat3("[harness] ⏸ 桥调用 ", ns, ".");
    s.append(method);
    s.append("（#");
    s.append(text::write_u64(id).as_str());
    s.append("）已等 5s 仍无回执");
    s
}

pub open spec fn message_of(v: json::Tree) -> Seq<char> {
    match json::str_of(Some(v)) {
        Some(s) => s,
        None => json::json_text(v),
    }
}

/// A value as a message: its text, or the whole of it as JSON.
pub fn value_to_msg(v: &Json) -> (r: String)
    ensures
        r@ == message_of(v@),
{
    match v.as_str() {
        Some(s) => s.to_owned(),
        None => json::print(v),
    }
}

/// A message that frames a call carries its number, and no answer is taken for one:
/// it is routed as a request.
pub proof fn law_call_is_routed_as_request(id: u64, ns: Seq<char>, method: Seq<char>, args: json::Tree)
    ensures
        routed(call_frame(id, ns, method, args)) == Route::Request(
            json::Tree::Pos(id),
            "onethu.call"@,
            json::value_at(call_frame(id, ns, method, args), "params"@),
        ),
{
    lemma_frame_names();
    reveal_strlit("interrupt");
    reveal_strlit("onethu.call");
    assert("interrupt"@.len() != "onethu.call"@.len());
    reveal_with_fuel(json::field_from, 5);
}

/// An answer that was sent is read back: a result as the result, a refusal as its
/// message, each under the number of the call.
pub proof fn law_answer_is_read_back(id: u64, result: json::Tree, message: Seq<char>)
    ensures
        routed(ok_frame(json::Tree::Pos(id), result)) == Route::Answer(id, Ok(result)),
        routed(err_frame(json::Tree::Pos(id), message)) == Route::Answer(id, Err(message)),
{
    lemma_frame_names();
    reveal_with_fuel(json::field_from, 5);
}

/// A notification that was sent is routed as one, unless it asks to break off.
pub proof fn law_notification_is_routed_as_one(method: Seq<char>, params: json::Tree)
    requires
        method != "interrupt"@,
    ensures
        routed(note_frame(method, params)) == Route::Notify(method, params),
{
    lemma_frame_names();
    reveal_with_fuel(json::field_from, 5);
}

/// A message that asks to break off goes to no one else; every other message with a
/// method does, as a request or a notification.
pub proof fn law_only_an_interrupt_is_held_back(msg: json::Tree)
    requires
        json::str_of(json::field(msg, "method"@)) is Some,
    ensures
        is_interrupt(msg) <==> routed(msg) is Nothing,
{
}

/// The names in a frame differ.
proof fn lemma_frame_names()
    ensures
        "jsonrpc"@ != "id"@,
        "jsonrpc"@ != "method"@,
        "jsonrpc"@ != "params"@,
        "jsonrpc"@ != "result"@,
        "jsonrpc"@ != "error"@,
        "id"@ != "method"@,
        "id"@ != "params"@,
        "id"@ != "result"@,
        "id"@ != "error"@,
        "method"@ != "params"@,
        "result"@ != "method"@,
        "result"@ != "error"@,
        "error"@ != "method"@,
        "error"@ != "result"@,
        "code"@ != "message"@,
        "params"@ != "error"@,
        "params"@ != "result"@,
{
    reveal_strlit("jsonrpc");
    reveal_strlit("id");
    reveal_strlit("method");
    reveal_strlit("params");
    reveal_strlit("result");
    reveal_strlit("error");
    reveal_strlit("code");
    reveal_strlit("message");
    assert("jsonrpc"@.len() == 7);
    assert("id"@.len() == 2);
    assert("method"@.len() == 6 && "method"@[0] == 'm');
    assert("params"@.len() == 6 && "params"@[0] == 'p');
    assert("result"@.len() == 6 && "result"@[0] == 'r');
    assert("error"@.len() == 5);
    assert("code"@.len() == 4);
    assert("message"@.len() == 7);
}

} // verus!
