//! What a tool does with its host, as a plan: what it asks next, depending on what
//! came back. A contract says of a tool's run that it follows the tool's plan to the
//! end.

use crate::host;
use crate::host::Host;
use crate::json;
use crate::json::{Arr, Json, Num};
use crate::text;
use vstd::prelude::*;

verus! {

/// What a tool comes to.
pub enum OutV {
    /// A result for the model.
    Text(Seq<char>),
    /// The user is to confirm this first.
    Confirm { tool: Seq<char>, args: json::Tree, summary: Seq<char> },
}

pub type Outcome = Result<OutV, Seq<char>>;

/// What is done next.
pub enum Plan {
    Done(Outcome),
    /// A call, and what follows it on each answer. An error comes as `friendly` has it.
    Call { ns: Seq<char>, method: Seq<char>, args: json::Tree, then: spec_fn(host::Reply) -> Plan },
    Pause { ms: u64, next: Box<Plan> },
    Total { amounts: Seq<json::Tree>, sum: spec_fn(json::Tree) -> Plan },
}

/// How an error of the host is told: one that the user can mend says how.
pub open spec fn friendly_text(e: Seq<char>) -> Seq<char> {
    if text::occurs(e, "会话未能建立"@) {
        "登录会话已失效：请打开 OneTHU 重新登录后再试。"@
    } else if text::occurs(e, "未获授权"@) {
        e + "（请在插件管理页重装/检查权限）"@
    } else {
        e
    }
}

pub open spec fn told(r: host::Reply) -> host::Reply {
    match r {
        Ok(v) => Ok(v),
        Err(e) => Err(friendly_text(e)),
    }
}

/// The plan after one exchange; none where the exchange is not what the plan asks.
pub open spec fn step(p: Plan, e: host::Exchange) -> Option<Plan> {
    match (p, e) {
        (
            Plan::Call { ns, method, args, then },
            host::Exchange::Call { ns: n, method: m, args: a, reply },
        ) => if ns == n && method == m && args == a {
            Some(then(told(reply)))
        } else {
            None
        },
        (Plan::Pause { ms, next }, host::Exchange::Pause { ms: m }) => if ms == m {
            Some(*next)
        } else {
            None
        },
        (Plan::Total { amounts, sum }, host::Exchange::Total { amounts: a, total }) => if amounts
            == a {
            Some(sum(total))
        } else {
            None
        },
        _ => None,
    }
}

/// What is left of a plan after some exchanges; none where they did not follow it.
pub open spec fn rest(p: Plan, es: Seq<host::Exchange>) -> Option<Plan>
    decreases es.len(),
{
    if es.len() == 0 {
        Some(p)
    } else {
        match rest(p, es.drop_last()) {
            Some(q) => step(q, es.last()),
            None => None,
        }
    }
}

/// A run of a plan: the plan, what had been exchanged before it, and what is left.
pub ghost struct Run {
    pub plan: Plan,
    pub before: Seq<host::Exchange>,
    pub at: Plan,
}

pub open spec fn begin(plan: Plan, before: Seq<host::Exchange>) -> Run {
    Run { plan, before, at: plan }
}

/// The same run, further on.
pub open spec fn at(t: Run, p: Plan) -> Run {
    Run { at: p, ..t }
}

/// The run after the answer to the call that it was at.
pub open spec fn next(t: Run, r: host::Reply) -> Run {
    at(t, (t.at->Call_then)(r))
}

/// A call whose error ends the run.
pub open spec fn ask(
    ns: Seq<char>,
    method: Seq<char>,
    args: json::Tree,
    then: spec_fn(json::Tree) -> Plan,
) -> Plan {
    Plan::Call {
        ns,
        method,
        args,
        then: |r: host::Reply|
            match r {
                Ok(v) => then(v),
                Err(e) => fail(e),
            },
    }
}

/// The exchanges so far are those of the run.
pub open spec fn on_way(t: Run, log: Seq<host::Exchange>) -> bool {
    &&& t.before.is_prefix_of(log)
    &&& rest(t.plan, log.skip(t.before.len() as int)) == Some(t.at)
}

/// A result for the model: a value, as JSON.
pub open spec fn say(v: json::Tree) -> Plan {
    Plan::Done(Ok(OutV::Text(json::json_text(v))))
}

pub open spec fn fail(e: Seq<char>) -> Plan {
    Plan::Done(Err(e))
}

/// The user is to confirm first what the summary says.
pub open spec fn confirm(tool: Seq<char>, args: json::Tree, summary: Seq<char>) -> Plan {
    Plan::Done(Ok(OutV::Confirm { tool, args, summary }))
}

/// How a run ends that came to a summary or an error.
pub open spec fn summary_of(tool: Seq<char>, args: json::Tree, r: Result<String, String>) -> Plan {
    match r {
        Ok(s) => confirm(tool, args, s@),
        Err(e) => fail(e@),
    }
}

/// How a run ends that came to a value or an error.
pub open spec fn end_of(r: Result<Json, String>) -> Plan {
    match r {
        Ok(v) => say(v@),
        Err(e) => fail(e@),
    }
}

pub proof fn lemma_begin(plan: Plan, before: Seq<host::Exchange>)
    ensures
        on_way(begin(plan, before), before),
{
    assert(before.skip(before.len() as int) =~= Seq::empty());
    assert(before.take(before.len() as int) =~= before);
}

pub proof fn lemma_step(t: Run, log: Seq<host::Exchange>, e: host::Exchange, p: Plan)
    requires
        on_way(t, log),
        step(t.at, e) == Some(p),
    ensures
        on_way(at(t, p), log.push(e)),
{
    let n = t.before.len() as int;
    assert(log.push(e).skip(n).drop_last() =~= log.skip(n));
    assert(log.push(e).skip(n).last() == e);
    assert(log.push(e).take(n) =~= log.take(n));
}

/// How an error of the host is told.
pub fn friendly(e: String) -> (r: String)
    ensures
        r@ == friendly_text(e@),
{
    if text::contains(e.as_str(), "会话未能建立") {
        "登录会话已失效：请打开 OneTHU 重新登录后再试。".to_owned()
    } else if text::contains(e.as_str(), "未获授权") {
        text::cat(e.as_str(), "（请在插件管理页重装/检查权限）")
    } else {
        e
    }
}

/// Makes the call that the plan asks for.
pub(crate) fn host<H: Host>(
    h: &mut H,
    ns: &str,
    method: &str,
    args: Json,
    Ghost(t): Ghost<Run>,
) -> (r: Result<Json, String>)
    requires
        on_way(t, old(h).log()),
        t.at is Call,
        t.at->Call_ns == ns@,
        t.at->Call_method == method@,
        t.at->Call_args == args@,
    ensures
        on_way(next(t, host::reply_of(r)), final(h).log()),
{
    let ghost before = h.log();
    let answer = h.call(ns, method, args);
    let ghost reply = host::reply_of(answer);
    proof {
        lemma_step(
            t,
            before,
            host::Exchange::Call { ns: ns@, method: method@, args: args@, reply },
            (t.at->Call_then)(told(reply)),
        );
    }
    match answer {
        Ok(v) => Ok(v),
        Err(e) => Err(friendly(e)),
    }
}

/// Makes the pause that the plan asks for.
pub(crate) fn pause<H: Host>(h: &mut H, ms: u64, Ghost(t): Ghost<Run>)
    requires
        on_way(t, old(h).log()),
        t.at is Pause,
        t.at->Pause_ms == ms,
    ensures
        on_way(at(t, *t.at->Pause_next), final(h).log()),
{
    let ghost before = h.log();
    h.pause(ms);
    proof {
        lemma_step(t, before, host::Exchange::Pause { ms }, *t.at->Pause_next);
    }
}

/// Has the amounts added up that the plan asks for.
pub(crate) fn total<H: Host>(h: &mut H, amounts: &Vec<Num>, Ghost(t): Ghost<Run>) -> (r: Json)
    requires
        on_way(t, old(h).log()),
        t.at is Total,
        t.at->Total_amounts == host::numbers(amounts@),
    ensures
        on_way(at(t, (t.at->Total_sum)(r@)), final(h).log()),
{
    let ghost before = h.log();
    let r = h.total(amounts);
    proof {
        lemma_step(
            t,
            before,
            host::Exchange::Total { amounts: host::numbers(amounts@), total: r@ },
            (t.at->Total_sum)(r@),
        );
    }
    r
}

/// The first `n` of some values.
pub open spec fn first(items: Seq<json::Tree>, n: int) -> Seq<json::Tree> {
    if items.len() <= n {
        items
    } else {
        items.take(n)
    }
}

/// A value made of each of the first `max` of some values, and of its place.
pub(crate) fn rows<F: Fn(usize, &Json) -> Json>(
    items: &Vec<Json>,
    max: usize,
    f: F,
    Ghost(g): Ghost<spec_fn(int, json::Tree) -> json::Tree>,
) -> (r: Json)
    requires
        forall|i: usize, x: &Json| #[trigger] call_requires(f, (i, x)),
        forall|i: usize, x: &Json, y: Json|
            #[trigger] call_ensures(f, (i, x), y) ==> y@ == g(i as int, x@),
    ensures
        r@ == json::Tree::Arr(first(json::trees(items@), max as int).map(g)),
{
    let ghost all = json::trees(items@);
    let n = if items.len() <= max { items.len() } else { max };
    let mut list = Arr::new();
    let mut i: usize = 0;
    while i < n
        invariant
            i <= n,
            n <= items@.len(),
            all == json::trees(items@),
            list@ == all.take(i as int).map(g),
            forall|i: usize, x: &Json| #[trigger] call_requires(f, (i, x)),
            forall|i: usize, x: &Json, y: Json|
                #[trigger] call_ensures(f, (i, x), y) ==> y@ == g(i as int, x@),
        decreases n - i,
    {
        let row = f(i, &items[i]);
        assert(row@ == g(i as int, all[i as int]));
        assert(all.take(i + 1).map(g) =~= all.take(i as int).map(g).push(row@));
        list = list.with(row);
        i += 1;
    }
    assert(first(all, max as int) =~= all.take(n as int));
    list.done()
}

/// A text, or another one where it is blank.
pub open spec fn or_text(v: Seq<char>, d: Seq<char>) -> Seq<char> {
    if text::trimmed(v).len() == 0 {
        d
    } else {
        v
    }
}

pub fn or_default(v: &str, d: &str) -> (r: String)
    ensures
        r@ == or_text(v@, d@),
{
    if text::trim(v).as_str().is_empty() {
        d.to_owned()
    } else {
        v.to_owned()
    }
}

/// The value at an index that was asked for; none where there is no such index.
pub open spec fn nth(items: Seq<json::Tree>, n: i64) -> Option<json::Tree> {
    if 0 <= n < items.len() {
        Some(items[n as int])
    } else {
        None
    }
}

pub(crate) fn pick(items: &Vec<Json>, n: i64) -> (r: Option<&Json>)
    ensures
        match r {
            Some(v) => nth(json::trees(items@), n) == Some(v@),
            None => nth(json::trees(items@), n) is None,
        },
{
    if n >= 0 && (n as u64) < items.len() as u64 {
        Some(&items[n as usize])
    } else {
        None
    }
}

pub open spec fn places(v: Seq<usize>) -> Seq<int> {
    v.map_values(|i: usize| i as int)
}

/// The arguments of a call that takes none.
pub open spec fn none() -> json::Tree {
    json::Tree::Arr(json::no_items())
}

pub(crate) fn no_args() -> (r: Json)
    ensures
        r@ == none(),
{
    Arr::new().done()
}

/// The texts under a name in some values.
pub open spec fn names(items: Seq<json::Tree>, key: Seq<char>) -> Seq<Seq<char>> {
    items.map_values(|x: json::Tree| json::text_at(x, key))
}

pub(crate) fn names_in(items: &Vec<Json>, key: &str) -> (r: Vec<String>)
    ensures
        text::texts(r@) == names(json::trees(items@), key@),
{
    let ghost all = json::trees(items@);
    let mut out: Vec<String> = Vec::new();
    let mut i: usize = 0;
    assert(text::texts(out@) =~= names(all, key@).take(0));
    while i < items.len()
        invariant
            i <= items@.len(),
            all == json::trees(items@),
            text::texts(out@) == names(all, key@).take(i as int),
        decreases items@.len() - i,
    {
        let ghost before = out@;
        let s = items[i].text(key);
        out.push(s);
        assert(text::texts(out@) =~= text::texts(before).push(s@));
        assert(names(all, key@).take(i + 1) =~= names(all, key@).take(i as int).push(s@));
        i += 1;
    }
    assert(names(all, key@).take(all.len() as int) =~= names(all, key@));
    out
}

} // verus!
