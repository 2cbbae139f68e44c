//! Answers over one line: while the answer to a call is awaited, whatever else comes
//! is kept, answers by their number and requests in their order.

use crate::host;
use crate::host::{Deferred, Incoming, Routed};
use crate::json;
use crate::json::Json;
use std::collections::HashMap;
use vstd::prelude::*;

verus! {

broadcast use vstd::std_specs::hash::group_hash_axioms;

/// Forgets an earlier wish to break off.
pub fn interrupt_reset(flag: &mut bool)
    ensures
        !*final(flag),
{
    *flag = false;
}

/// Whether there was a wish to break off, which is forgotten then.
pub fn interrupt_take(flag: &mut bool) -> (r: bool)
    ensures
        r == *old(flag),
        !*final(flag),
{
    let r = *flag;
    *flag = false;
    r
}

/// What came while an answer was awaited.
pub struct Conn {
    /// Answers to other calls, by their number.
    pub orphans: HashMap<u64, Result<Json, String>>,
    /// Requests of the host, for the main loop to make up for.
    pub deferred: Deferred,
}

/// A request of the host: its id, what it asks, and with what.
pub type RequestV = (json::Tree, Seq<char>, json::Tree);

pub struct ConnV {
    pub answers: Map<u64, host::Reply>,
    pub deferred: Seq<RequestV>,
}

pub open spec fn requests_of(v: Seq<(Json, String, Json)>) -> Seq<RequestV> {
    v.map_values(|x: (Json, String, Json)| (x.0@, x.1@, x.2@))
}

impl View for Conn {
    type V = ConnV;

    open spec fn view(&self) -> ConnV {
        ConnV {
            answers: self.orphans@.map_values(|r: Result<Json, String>| host::reply_of(r)),
            deferred: requests_of(self.deferred@),
        }
    }
}

/// The answer as a response gives it.
pub open spec fn reply_in(ok: bool, value: json::Tree) -> host::Reply {
    if ok {
        Ok(value)
    } else {
        Err(host::message_of(value))
    }
}

fn settle(ok: bool, value: Json) -> (r: Result<Json, String>)
    ensures
        host::reply_of(r) == reply_in(ok, value@),
{
    if ok {
        Ok(value)
    } else {
        Err(host::value_to_msg(&value))
    }
}

/// The number of the next call.
pub fn next_id(seq: &mut u64) -> (r: u64)
    requires
        *old(seq) < u64::MAX,
    ensures
        *final(seq) == *old(seq) + 1,
        r == *final(seq),
{
    *seq = *seq + 1;
    *seq
}

/// The message that the main loop sees, of what a line is for; none where it is for
/// nothing. A refusal is seen without its value.
pub open spec fn seen(r: host::Route) -> Option<host::IncomingV> {
    match r {
        host::Route::Request(id, method, params) => Some(
            host::IncomingV::Request { id, method, params },
        ),
        host::Route::Notify(method, params) => Some(host::IncomingV::Notify { method, params }),
        host::Route::Answer(id, Ok(value)) => Some(
            host::IncomingV::Response { id, ok: true, value },
        ),
        host::Route::Answer(id, Err(_)) => Some(
            host::IncomingV::Response { id, ok: false, value: json::Tree::Null },
        ),
        host::Route::Nothing => None,
    }
}

pub open spec fn incoming_option(m: Option<Incoming>) -> Option<host::IncomingV> {
    match m {
        Some(x) => Some(x@),
        None => None,
    }
}

/// The message that the main loop sees, of what a line is for.
pub fn incoming(r: Routed) -> (m: Option<Incoming>)
    ensures
        incoming_option(m) == seen(r@),
{
    match r {
        Routed::Request { id, method, params } => Some(Incoming::Request { id, method, params }),
        Routed::Notify { method, params } => Some(Incoming::Notify { method, params }),
        Routed::Answer { id, reply } => match reply {
            Ok(value) => Some(Incoming::Response { id, ok: true, value }),
            Err(_) => Some(Incoming::Response { id, ok: false, value: Json::Null }),
        },
        Routed::Nothing => None,
    }
}

/// What is kept once the answer to call `rid` has been handed out.
pub open spec fn claimed(c: ConnV, rid: u64) -> ConnV {
    ConnV { answers: c.answers.remove(rid), ..c }
}

/// The answer to call `rid`, where it has come already.
pub open spec fn already(c: ConnV, rid: u64) -> Option<host::Reply> {
    if c.answers.contains_key(rid) {
        Some(c.answers[rid])
    } else {
        None
    }
}

/// What is kept, and what is handed out, once a message has come while the answer to
/// call `rid` is awaited: that answer is handed out, one to another call is kept under its
/// number, a request after those that came before, and a notification passes.
pub open spec fn taken(c: ConnV, rid: u64, m: host::IncomingV) -> (ConnV, Option<host::Reply>) {
    match m {
        host::IncomingV::Response { id, ok, value } => if id == rid {
            (c, Some(reply_in(ok, value)))
        } else {
            (ConnV { answers: c.answers.insert(id, reply_in(ok, value)), ..c }, None)
        },
        host::IncomingV::Request { id, method, params } => (
            ConnV { deferred: c.deferred.push((id, method, params)), ..c },
            None,
        ),
        host::IncomingV::Notify { .. } => (c, None),
    }
}

/// The same of a message as JSON.
pub open spec fn heard(c: ConnV, rid: u64, msg: json::Tree) -> (ConnV, Option<host::Reply>) {
    match seen(host::routed(msg)) {
        Some(m) => taken(c, rid, m),
        None => (c, None),
    }
}

pub open spec fn reply_option(r: Option<Result<Json, String>>) -> Option<host::Reply> {
    match r {
        Some(x) => Some(host::reply_of(x)),
        None => None,
    }
}

/// A call that was begun: its number, the request that is to be sent, and its answer
/// where that has come already.
#[derive(Debug)]
pub struct Call {
    pub id: u64,
    pub request: Json,
    pub answer: Option<Result<Json, String>>,
}

impl Conn {
    pub fn new() -> (r: Conn)
        ensures
            r@ == (ConnV { answers: Map::empty(), deferred: Seq::empty() }),
    {
        let r = Conn { orphans: HashMap::new(), deferred: Vec::new() };
        assert(r@.answers =~= Map::empty());
        assert(r@.deferred =~= Seq::empty());
        r
    }

    /// Hands out the answer to call `rid` where it has come already.
    pub fn claim(&mut self, rid: u64) -> (r: Option<Result<Json, String>>)
        ensures
            final(self)@ == claimed(old(self)@, rid),
            reply_option(r) == already(old(self)@, rid),
    {
        let r = self.orphans.remove(&rid);
        assert(self@.answers =~= old(self)@.answers.remove(rid));
        r
    }

    /// Begins a call: it gets the next number, under which the request is framed. The
    /// answer is awaited, with `hear`, where it has not come already.
    pub fn call(&mut self, seq: &mut u64, ns: &str, method: &str, args: Json) -> (r: Call)
        requires
            *old(seq) < u64::MAX,
        ensures
            *final(seq) == *old(seq) + 1,
            r.id == *final(seq),
            r.request@ == host::call_frame(r.id, ns@, method@, args@),
            final(self)@ == claimed(old(self)@, r.id),
            reply_option(r.answer) == already(old(self)@, r.id),
    {
        let id = next_id(seq);
        Call { id, request: host::call_request(id, ns, method, args), answer: self.claim(id) }
    }

    /// Takes a message in while the answer to call `rid` is awaited, and hands out
    /// that answer where the message is it.
    pub fn accept(&mut self, rid: u64, m: Incoming) -> (r: Option<Result<Json, String>>)
        ensures
            (final(self)@, reply_option(r)) == taken(old(self)@, rid, m@),
    {
        match m {
            Incoming::Response { id, ok, value } => {
                let out = settle(ok, value);
                if id == rid {
                    return Some(out);
                }
                self.orphans.insert(id, out);
                assert(self@.answers =~= old(self)@.answers.insert(id, host::reply_of(out)));
                None
            },
            Incoming::Request { id, method, params } => {
                let ghost x = (id@, method@, params@);
                self.deferred.push((id, method, params));
                assert(self@.deferred =~= old(self)@.deferred.push(x));
                None
            },
            Incoming::Notify { .. } => None,
        }
    }

    /// Takes a line in while the answer to call `rid` is awaited, and hands out that
    /// answer where the line is it. A line that is not JSON passes.
    pub fn hear(&mut self, rid: u64, line: &str) -> (r: Option<Result<Json, String>>)
        ensures
            (final(self)@, reply_option(r)) == (match json::json_read(line@) {
                Some(msg) => heard(old(self)@, rid, msg),
                None => (old(self)@, None),
            }),
    {
        match incoming(host::route_line(line)) {
            Some(m) => self.accept(rid, m),
            None => None,
        }
    }

    /// Hands out the requests that were kept, in the order in which they came.
    pub fn take_deferred(&mut self) -> (r: Deferred)
        ensures
            requests_of(r@) == old(self)@.deferred,
            final(self)@ == (ConnV { deferred: Seq::empty(), ..old(self)@ }),
    {
        let mut out: Deferred = Vec::new();
        std::mem::swap(&mut out, &mut self.deferred);
        assert(self@.deferred =~= Seq::empty());
        out
    }
}

/// What is kept, and what is handed out, once some messages have come while the answer
/// to call `rid` was awaited; those after the answer are left.
pub open spec fn waited(c: ConnV, rid: u64, ms: Seq<json::Tree>) -> (ConnV, Option<host::Reply>)
    decreases ms.len(),
{
    if ms.len() == 0 {
        (c, None)
    } else {
        let (d, r) = heard(c, rid, ms[0]);
        match r {
            Some(_) => (d, r),
            None => waited(d, rid, ms.skip(1)),
        }
    }
}

/// The same of a whole call: an answer that has come already is handed out at once.
pub open spec fn called(c: ConnV, rid: u64, ms: Seq<json::Tree>) -> (ConnV, Option<host::Reply>) {
    match already(c, rid) {
        Some(r) => (claimed(c, rid), Some(r)),
        None => waited(claimed(c, rid), rid, ms),
    }
}

/// The requests among some messages, in their order.
pub open spec fn requests(ms: Seq<json::Tree>) -> Seq<RequestV>
    decreases ms.len(),
{
    if ms.len() == 0 {
        Seq::empty()
    } else {
        match host::routed(ms[0]) {
            host::Route::Request(id, method, params) => seq![(id, method, params)] + requests(
                ms.skip(1),
            ),
            _ => requests(ms.skip(1)),
        }
    }
}

/// The message answers the call of that number.
pub open spec fn answers_call(msg: json::Tree, id: u64) -> bool {
    host::routed(msg) matches host::Route::Answer(n, r) && n == id
}

/// What a caller gets of a message that answers: its result where it holds no error, and
/// a refusal where it does.
pub open spec fn got(msg: json::Tree) -> host::Reply {
    match json::field(msg, "error"@) {
        Some(_) => Err(host::message_of(json::Tree::Null)),
        None => Ok(json::value_at(msg, "result"@)),
    }
}

/// The message at `i` is the last before `k` that answers call `x`; there is none where
/// `i` is below zero.
pub open spec fn last_answer(ms: Seq<json::Tree>, k: int, i: int, x: u64) -> bool {
    &&& -1 <= i < k <= ms.len()
    &&& i >= 0 ==> answers_call(ms[i], x)
    &&& forall|j: int| i < j < k && 0 <= j ==> !answers_call(#[trigger] ms[j], x)
}

/// A step of waiting that does not end it.
proof fn lemma_heard(c: ConnV, rid: u64, msg: json::Tree)
    ensures
        answers_call(msg, rid) ==> heard(c, rid, msg) == (c, Some(got(msg))),
        !answers_call(msg, rid) ==> heard(c, rid, msg).1 is None,
        forall|x: u64|
            #![trigger heard(c, rid, msg).0.answers.contains_key(x)]
            x != rid && answers_call(msg, x) ==> heard(c, rid, msg).0.answers.contains_key(x)
                && heard(c, rid, msg).0.answers[x] == got(msg),
        forall|x: u64|
            #![trigger heard(c, rid, msg).0.answers.contains_key(x)]
            !answers_call(msg, x) && c.answers.contains_key(x) ==> heard(
                c,
                rid,
                msg,
            ).0.answers.contains_key(x) && heard(c, rid, msg).0.answers[x] == c.answers[x],
        heard(c, rid, msg).0.deferred == c.deferred + requests(seq![msg]),
{
    reveal_with_fuel(requests, 2);
    assert(seq![msg].skip(1) =~= Seq::empty());
    assert(c.deferred + requests(seq![msg]) =~= heard(c, rid, msg).0.deferred);
}

proof fn lemma_waited(c: ConnV, rid: u64, ms: Seq<json::Tree>, k: int)
    requires
        0 <= k < ms.len(),
        answers_call(ms[k], rid),
        last_answer(ms, k, -1, rid),
    ensures
        waited(c, rid, ms).1 == Some(got(ms[k])),
        waited(c, rid, ms).0.deferred == c.deferred + requests(ms.take(k)),
    decreases ms.len(),
{
    lemma_heard(c, rid, ms[0]);
    if k == 0 {
        assert(ms.take(0) =~= Seq::empty());
        assert(c.deferred + Seq::<RequestV>::empty() =~= c.deferred);
    } else {
        assert(!answers_call(ms[0], rid));
        let d = heard(c, rid, ms[0]).0;
        let rest = ms.skip(1);
        assert forall|j: int| -1 < j < k - 1 && 0 <= j implies !answers_call(
            #[trigger] rest[j],
            rid,
        ) by {
            assert(rest[j] == ms[j + 1]);
        }
        lemma_waited(d, rid, rest, k - 1);
        assert(ms.take(k).skip(1) =~= rest.take(k - 1));
        assert(ms.take(k)[0] == ms[0]);
        reveal_with_fuel(requests, 2);
        assert(seq![ms[0]].skip(1) =~= Seq::empty());
        assert(d.deferred + requests(rest.take(k - 1)) =~= c.deferred + requests(ms.take(k)));
    }
}

/// The last answer to another call among the messages before the awaited one is kept, or
/// what was kept of it before.
proof fn lemma_kept(c: ConnV, rid: u64, ms: Seq<json::Tree>, k: int, i: int, x: u64)
    requires
        x != rid,
        0 <= k < ms.len(),
        answers_call(ms[k], rid),
        last_answer(ms, k, -1, rid),
        last_answer(ms, k, i, x),
        i < 0 ==> c.answers.contains_key(x),
    ensures
        ({
            let d = waited(c, rid, ms).0;
            &&& d.answers.contains_key(x)
            &&& d.answers[x] == (if i >= 0 {
                got(ms[i])
            } else {
                c.answers[x]
            })
        }),
    decreases ms.len(),
{
    lemma_heard(c, rid, ms[0]);
    if k > 0 {
        assert(!answers_call(ms[0], rid));
        let d = heard(c, rid, ms[0]).0;
        let rest = ms.skip(1);
        let next = if i > 0 {
            i - 1
        } else {
            -1
        };
        assert forall|j: int| -1 < j < k - 1 && 0 <= j implies !answers_call(
            #[trigger] rest[j],
            rid,
        ) by {
            assert(rest[j] == ms[j + 1]);
        }
        assert forall|j: int| next < j < k - 1 && 0 <= j implies !answers_call(
            #[trigger] rest[j],
            x,
        ) by {
            assert(rest[j] == ms[j + 1]);
        }
        if i > 0 {
            assert(rest[i - 1] == ms[i]);
        }
        if i < 0 {
            assert(!answers_call(ms[0], x));
        }
        assert(i <= 0 ==> d.answers.contains_key(x));
        lemma_kept(d, rid, rest, k - 1, next, x);
    }
}

/// A whole call, from the number that it gets to what is left after it. Its number is
/// the one after the last, and the request that is sent bears it. It gets the first
/// answer of that number, whatever comes before: the result exactly where the answer
/// holds no error, null where it holds no result either. The requests that came meanwhile
/// are kept in their order, after those kept before. Answers to other calls that came
/// meanwhile or before are kept, and a later call of their number gets the last of them.
pub proof fn law_a_call_gets_its_answer(
    c: ConnV,
    seq: u64,
    ns: Seq<char>,
    method: Seq<char>,
    args: json::Tree,
    ms: Seq<json::Tree>,
    k: int,
)
    requires
        seq < u64::MAX,
        !c.answers.contains_key((seq + 1) as u64),
        0 <= k < ms.len(),
        answers_call(ms[k], (seq + 1) as u64),
        last_answer(ms, k, -1, (seq + 1) as u64),
    ensures
        ({
            let rid = (seq + 1) as u64;
            let d = called(c, rid, ms).0;
            let r = called(c, rid, ms).1;
            &&& host::routed(host::call_frame(rid, ns, method, args)) matches host::Route::Request(
                id,
                asked,
                params,
            ) && id == json::Tree::Pos(rid) && asked == "onethu.call"@
            &&& r == Some(got(ms[k]))
            &&& (r->Some_0 is Ok <==> json::field(ms[k], "error"@) is None)
            &&& (r->Some_0 is Ok ==> r->Some_0->Ok_0 == json::value_at(ms[k], "result"@))
            &&& d.deferred == c.deferred + requests(ms.take(k))
            &&& forall|i: int, x: u64, later: Seq<json::Tree>|
                x != rid && #[trigger] last_answer(ms, k, i, x) && (i >= 0
                    || c.answers.contains_key(x)) ==> (#[trigger] called(d, x, later)) == (
                    claimed(d, x),
                    Some(
                        if i >= 0 {
                            got(ms[i])
                        } else {
                            c.answers[x]
                        },
                    ),
                )
        }),
{
    let rid = (seq + 1) as u64;
    let start = claimed(c, rid);
    assert(start.answers =~= c.answers);
    host::law_call_is_routed_as_request(rid, ns, method, args);
    lemma_waited(start, rid, ms, k);
    let d = called(c, rid, ms).0;
    assert forall|i: int, x: u64, later: Seq<json::Tree>|
        x != rid && #[trigger] last_answer(ms, k, i, x) && (i >= 0 || c.answers.contains_key(
            x,
        )) implies (#[trigger] called(d, x, later)) == (
        claimed(d, x),
        Some(
            if i >= 0 {
                got(ms[i])
            } else {
                c.answers[x]
            },
        ),
    ) by {
        lemma_kept(start, rid, ms, k, i, x);
    }
}

} // verus!
