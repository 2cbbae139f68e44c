//! What holds of every run of the conversation.

use crate::agent::chat;
use crate::config::Config;
use crate::json;
use crate::session;
use crate::session::Stamp;
use crate::text;
use crate::tools::plan;
use crate::usage;
use crate::usage::Usage;
use vstd::prelude::*;

verus! {

/// Something happened, at a time.
pub type Happening = (chat::EventV, u64);

/// The machine after a sequence of events.
pub open spec fn after(c: chat::ChatV, es: Seq<Happening>) -> chat::ChatV
    decreases es.len(),
{
    if es.len() == 0 {
        c
    } else {
        chat::stepped(after(c, es.drop_last()), es.last().0, es.last().1).chat
    }
}

/// Each of the events is one that the machine waits for.
pub open spec fn takes_all(c: chat::ChatV, es: Seq<Happening>) -> bool
    decreases es.len(),
{
    es.len() == 0 || (takes_all(c, es.drop_last()) && chat::takes(
        after(c, es.drop_last()),
        es.last().0,
    ))
}

/// Two states of a run of the same conversation: the same settings, and the other
/// conversations as they were.
pub open spec fn same_run(c: chat::ChatV, d: chat::ChatV) -> bool {
    &&& d.cfg == c.cfg
    &&& d.at == c.at
    &&& d.store.active == c.store.active
    &&& d.store.sessions.len() == c.store.sessions.len()
    &&& forall|k: int|
        0 <= k < c.store.sessions.len() && k != c.at ==> (#[trigger] d.store.sessions[k])
            == c.store.sessions[k]
    &&& chat::session(d).id == chat::session(c).id
}

pub(crate) proof fn lemma_filled(c: chat::ChatV, j: int)
    requires
        0 <= c.at < c.store.sessions.len(),
        0 <= j,
    ensures
        same_run(c, chat::filled(c, j)),
        chat::filled(c, j).calls == c.calls,
        chat::filled(c, j).next == c.next,
        chat::filled(c, j).phase == c.phase,
        chat::filled(c, j).step == c.step,
        chat::filled(c, j).run_usage == c.run_usage,
        chat::filled(c, j).snapshot == c.snapshot,
        chat::filled(c, j).store.totals == c.store.totals,
        chat::session(chat::filled(c, j)).usage == chat::session(c).usage,
        chat::session(chat::filled(c, j)).pending == chat::session(c).pending,
    decreases c.calls.len() - j,
{
    if j < c.calls.len() {
        if chat::is_answered(c, c.calls[j].id) {
            lemma_filled(c, j + 1);
        } else {
            let d = chat::said(c, session::tool_msg(c.calls[j].id, "（用户打断，未执行）"@));
            lemma_filled(d, j + 1);
        }
    }
}

/// Each move leaves the machine sound, and touches only its own conversation.
pub proof fn law_a_run_keeps_to_its_conversation(c: chat::ChatV, e: chat::EventV, now: u64)
    requires
        chat::wf(c),
        chat::takes(c, e),
    ensures
        chat::wf(chat::stepped(c, e, now).chat),
        same_run(c, chat::stepped(c, e, now).chat),
{
    if c.phase is ToolPoll {
        lemma_filled(c, 0);
    }
}

/// A run begins sound: in the active conversation, before its first step, with nothing
/// used yet.
pub proof fn law_a_run_begins_sound(
    cfg: Config,
    store: session::StoreV,
    input: Seq<char>,
    clock: Seq<char>,
    stamp: Stamp,
    now: u64,
)
    ensures
        chat::wf(chat::begun(cfg, store, input, clock, stamp, now).chat),
        chat::begun(cfg, store, input, clock, stamp, now).chat.step == 0,
        chat::begun(cfg, store, input, clock, stamp, now).chat.run_usage == usage::zero(),
{
    session::lemma_activated(store, stamp);
}

/// A write is run as confirmed only where one awaited the user's word and they gave
/// it, and it is the very one that awaited. No later move of a run does so.
pub proof fn law_only_a_yes_runs_the_write(
    cfg: Config,
    store: session::StoreV,
    input: Seq<char>,
    clock: Seq<char>,
    stamp: Stamp,
    c: chat::ChatV,
    e: chat::EventV,
    now: u64,
)
    ensures
        chat::begun(cfg, store, input, clock, stamp, now).out.request
            matches chat::RequestV::Execute { tool, args, confirmed } ==> {
            let opened = chat::opening(cfg, store, input, clock, stamp);
            &&& chat::is_yes(text::trimmed(input))
            &&& chat::session(opened).pending matches Some(p) && p.tool == tool && p.args == args
        },
        chat::stepped(c, e, now).out.request matches chat::RequestV::Execute {
            tool,
            args,
            confirmed,
        } ==> !confirmed,
{
}

/// Where a write awaits the user's word and they decline, it is dropped and nothing is
/// run; where they say something else it is forgotten.
pub proof fn law_a_write_without_a_yes_is_dropped(
    cfg: Config,
    store: session::StoreV,
    input: Seq<char>,
    clock: Seq<char>,
    stamp: Stamp,
    now: u64,
)
    requires
        !chat::is_yes(text::trimmed(input)),
    ensures
        chat::session(chat::begun(cfg, store, input, clock, stamp, now).chat).pending is None,
        !(chat::begun(cfg, store, input, clock, stamp, now).out.request is Execute),
        chat::is_no(text::trimmed(input)) && chat::session(
            chat::opening(cfg, store, input, clock, stamp),
        ).pending is Some ==> chat::begun(cfg, store, input, clock, stamp, now).out.request is Reply,
{
    session::lemma_activated(store, stamp);
}

/// No word both confirms and declines.
pub proof fn law_yes_is_not_no(t: Seq<char>)
    ensures
        !(chat::is_yes(t) && chat::is_no(t)),
{
    reveal_strlit("确认");
    reveal_strlit("确定");
    reveal_strlit("是");
    reveal_strlit("y");
    reveal_strlit("Y");
    reveal_strlit("yes");
    reveal_strlit("ok");
    reveal_strlit("OK");
    reveal_strlit("好");
    reveal_strlit("同意");
    reveal_strlit("执行");
    reveal_strlit("取消");
    reveal_strlit("不");
    reveal_strlit("n");
    reveal_strlit("N");
    reveal_strlit("no");
    reveal_strlit("算了");
    reveal_strlit("放弃");
    reveal_strlit("不了");
    if chat::is_yes(t) && chat::is_no(t) {
        assert(t[0] == '确' || t[0] == '是' || t[0] == 'y' || t[0] == 'Y' || t[0] == 'o' || t[0]
            == 'O' || t[0] == '好' || t[0] == '同' || t[0] == '执');
        assert(t[0] == '取' || t[0] == '不' || t[0] == 'n' || t[0] == 'N' || t[0] == '算' || t[0]
            == '放');
    }
}

/// A write comes to await the user's word only where a tool asked for it, and then it is
/// what that tool asked for.
pub proof fn law_what_awaits_was_asked_for(c: chat::ChatV, e: chat::EventV, now: u64)
    requires
        chat::wf(c),
        chat::takes(c, e),
        chat::session(chat::stepped(c, e, now).chat).pending != chat::session(c).pending,
        chat::session(chat::stepped(c, e, now).chat).pending is Some,
    ensures
        e matches chat::EventV::Outcome { result, elapsed } && result matches Ok(
            plan::OutV::Confirm { tool, args, summary },
        ) && chat::session(chat::stepped(c, e, now).chat).pending == Some(
            session::PendingV { tool, args, summary },
        ),
        chat::stepped(c, e, now).chat.phase is Settle,
{
    if c.phase is ToolPoll {
        lemma_filled(c, 0);
    }
}

/// An exhausted budget ends the run before the model is asked, and changes nothing.
pub proof fn law_no_turn_over_budget(
    c: chat::ChatV,
    spent: Seq<char>,
    budget: Seq<char>,
    now: u64,
)
    requires
        c.phase is Budget,
    ensures
        ({
            let m = chat::stepped(
                c,
                chat::EventV::Budget { exhausted: true, spent, budget },
                now,
            );
            &&& m.out.request is Reply
            &&& m.out.effects.len() == 0
            &&& m.chat.store == c.store
            &&& m.chat.phase is Done
        }),
{
}

/// How often the model was asked.
pub open spec fn asks(c: chat::ChatV, es: Seq<Happening>) -> nat
    decreases es.len(),
{
    if es.len() == 0 {
        0
    } else {
        let before = after(c, es.drop_last());
        asks(c, es.drop_last()) + (if chat::stepped(
            before,
            es.last().0,
            es.last().1,
        ).out.request is Ask {
            1nat
        } else {
            0nat
        })
    }
}

proof fn lemma_after(c: chat::ChatV, es: Seq<Happening>)
    requires
        chat::wf(c),
        takes_all(c, es),
    ensures
        chat::wf(after(c, es)),
        same_run(c, after(c, es)),
    decreases es.len(),
{
    if es.len() > 0 {
        lemma_after(c, es.drop_last());
        law_a_run_keeps_to_its_conversation(
            after(c, es.drop_last()),
            es.last().0,
            es.last().1,
        );
    }
}

/// A run asks the model no more often than the settings allow, whatever happens.
pub proof fn law_steps_are_bounded(c: chat::ChatV, es: Seq<Happening>)
    requires
        chat::wf(c),
        takes_all(c, es),
    ensures
        c.step + asks(c, es) == after(c, es).step,
        c.step + asks(c, es) <= c.cfg.max_steps,
    decreases es.len(),
{
    lemma_after(c, es);
    if es.len() > 0 {
        law_steps_are_bounded(c, es.drop_last());
        lemma_after(c, es.drop_last());
        if after(c, es.drop_last()).phase is ToolPoll {
            lemma_filled(after(c, es.drop_last()), 0);
        }
    }
}

/// The messages before the run are kept while it is under way, and are those of the
/// conversation again where it failed or was broken off.
pub open spec fn restorable(c: chat::ChatV, messages: Seq<session::MsgV>) -> bool {
    match c.phase {
        chat::PhaseV::Budget(_) => chat::session(c).messages == messages,
        chat::PhaseV::Poll => c.snapshot == messages,
        chat::PhaseV::Turn => c.snapshot == messages,
        chat::PhaseV::ToolPoll => c.snapshot == messages,
        chat::PhaseV::Tool => c.snapshot == messages,
        chat::PhaseV::Settle(chat::EndingV::Broken) => chat::session(c).messages == messages,
        chat::PhaseV::Settle(chat::EndingV::Failed { error }) => chat::session(c).messages
            == messages,
        _ => true,
    }
}

/// A run in which the model fails, or that the user breaks off while the model is at
/// it, leaves the messages of the conversation as they were before, however many turns
/// and tools came first.
pub proof fn law_failed_run_leaves_no_message(c: chat::ChatV, es: Seq<Happening>)
    requires
        chat::wf(c),
        c.phase is Budget,
        takes_all(c, es),
    ensures
        restorable(after(c, es), chat::session(c).messages),
    decreases es.len(),
{
    if es.len() > 0 {
        law_failed_run_leaves_no_message(c, es.drop_last());
        lemma_after(c, es.drop_last());
        if after(c, es.drop_last()).phase is ToolPoll {
            lemma_filled(after(c, es.drop_last()), 0);
        }
    }
}

/// What the turns among some events used.
pub open spec fn used(es: Seq<Happening>) -> Usage
    decreases es.len(),
{
    if es.len() == 0 {
        usage::zero()
    } else {
        match es.last().0 {
            chat::EventV::Turn { turn, interrupted, cost } => match chat::turn_usage(turn) {
                Some(u) => usage::sum(used(es.drop_last()), u),
                None => used(es.drop_last()),
            },
            _ => used(es.drop_last()),
        }
    }
}

/// The usage of a run is that of its turns; once it is settled, the conversation and
/// the total have grown by it.
pub open spec fn counts(c: chat::ChatV, d: chat::ChatV, u: Usage) -> bool {
    &&& d.run_usage == u
    &&& d.phase is Done || (chat::session(d).usage == chat::session(c).usage && d.store.totals
        == c.store.totals)
}

/// Every turn's usage is counted, in the conversation and in the total, however the
/// run ends.
pub proof fn law_every_turn_is_counted(c: chat::ChatV, es: Seq<Happening>)
    requires
        chat::wf(c),
        c.phase is Budget,
        c.run_usage == usage::zero(),
        takes_all(c, es),
    ensures
        counts(c, after(c, es), used(es)),
        es.len() > 0 && es.last().0 is Settled ==> {
            let d = after(c, es);
            &&& chat::session(d).usage == usage::sum(chat::session(c).usage, used(es))
            &&& d.store.totals == usage::sum(c.store.totals, used(es))
        },
    decreases es.len(),
{
    if es.len() > 0 {
        law_every_turn_is_counted(c, es.drop_last());
        lemma_after(c, es.drop_last());
        if after(c, es.drop_last()).phase is ToolPoll {
            lemma_filled(after(c, es.drop_last()), 0);
        }
    }
}

/// While the tools of a turn are run, the conversation ends with the message of the
/// turn and the results of the calls that were run, one for each, in their order.
pub open spec fn in_turn(c: chat::ChatV) -> bool {
    let m = chat::session(c).messages;
    &&& 0 <= c.next < c.calls.len()
    &&& m.len() >= c.next + 1
    &&& m[m.len() - 1 - c.next].tool_calls == Some(json::Tree::Arr(chat::call_trees(c.calls)))
    &&& forall|k: int| 0 <= k < c.next ==> #[trigger] result_at(m, c.next, k, c.calls[k].id)
}

/// The `k`th of the last `n` messages is the result of the call with that id.
pub open spec fn result_at(m: Seq<session::MsgV>, n: int, k: int, id: Seq<char>) -> bool {
    &&& 0 <= m.len() - n + k < m.len()
    &&& m[m.len() - n + k].role == "tool"@
    &&& m[m.len() - n + k].tool_call_id == Some(id)
}

/// The conversation ends with the message of the turn and the results of all of its
/// calls, one for each, in their order.
pub open spec fn turn_complete(c: chat::ChatV) -> bool {
    let m = chat::session(c).messages;
    let n = c.calls.len() as int;
    &&& m.len() >= n + 1
    &&& m[m.len() - 1 - n].tool_calls == Some(json::Tree::Arr(chat::call_trees(c.calls)))
    &&& forall|k: int| 0 <= k < n ==> #[trigger] result_at(m, n, k, c.calls[k].id)
}

proof fn lemma_result_pushed(c: chat::ChatV, m: session::MsgV)
    requires
        chat::wf(c),
        in_turn(c),
        m.role == "tool"@,
        m.tool_call_id == Some(c.calls[c.next].id),
    ensures
        ({
            let d = chat::said(c, m);
            let all = chat::session(d).messages;
            let n = c.next + 1;
            &&& all.len() >= n + 1
            &&& all[all.len() - 1 - n].tool_calls == Some(
                json::Tree::Arr(chat::call_trees(c.calls)),
            )
            &&& forall|k: int| 0 <= k < n ==> #[trigger] result_at(all, n, k, c.calls[k].id)
        }),
{
    let before = chat::session(c).messages;
    let all = chat::session(chat::said(c, m)).messages;
    let n = c.next + 1;
    assert(all == before.push(m));
    assert forall|k: int| 0 <= k < n implies #[trigger] result_at(all, n, k, c.calls[k].id) by {
        if k < c.next {
            assert(result_at(before, c.next, k, c.calls[k].id));
        }
    }
}

/// Each tool call of a turn is followed by its result: while the tools are run the
/// results stand in the order of the calls, and the next turn is not up before every
/// call has one.
pub proof fn law_every_call_gets_its_result(c: chat::ChatV, e: chat::EventV, now: u64)
    requires
        chat::wf(c),
        chat::takes(c, e),
        c.phase is ToolPoll || c.phase is Tool ==> in_turn(c),
    ensures
        ({
            let d = chat::stepped(c, e, now).chat;
            &&& d.phase is ToolPoll || d.phase is Tool ==> in_turn(d)
            &&& c.phase is Tool && d.phase is Poll ==> turn_complete(d)
        }),
{
    let d = chat::stepped(c, e, now).chat;
    match (c.phase, e) {
        (chat::PhaseV::Tool, chat::EventV::Outcome { result, elapsed }) => {
            let call = c.calls[c.next];
            match result {
                Ok(plan::OutV::Text(t)) => {
                    lemma_result_pushed(c, session::tool_msg(call.id, t));
                    assert(chat::session(d).messages == chat::session(
                        chat::said(c, session::tool_msg(call.id, t)),
                    ).messages);
                },
                Err(x) => {
                    lemma_result_pushed(c, session::tool_msg(call.id, "错误："@ + x));
                    assert(chat::session(d).messages == chat::session(
                        chat::said(c, session::tool_msg(call.id, "错误："@ + x)),
                    ).messages);
                },
                _ => {},
            }
        },
        _ => {},
    }
}

/// A result for the call with that id stands among the messages from `from` on.
pub open spec fn has_result(m: Seq<session::MsgV>, from: int, id: Seq<char>) -> bool {
    exists|i: int|
        from <= i < m.len() && (#[trigger] m[i]).role == "tool"@ && m[i].tool_call_id == Some(id)
}

proof fn lemma_filled_answers(c: chat::ChatV, j: int, from: int)
    requires
        chat::wf(c),
        0 <= j <= c.calls.len(),
        0 <= c.next <= c.calls.len(),
        0 <= from <= chat::session(c).messages.len(),
        forall|k: int|
            0 <= k < c.calls.len() && (k < c.next || k < j) ==> has_result(
                chat::session(c).messages,
                from,
                (#[trigger] c.calls[k]).id,
            ),
    ensures
        forall|k: int|
            0 <= k < c.calls.len() ==> has_result(
                chat::session(chat::filled(c, j)).messages,
                from,
                (#[trigger] c.calls[k]).id,
            ),
    decreases c.calls.len() - j,
{
    if j < c.calls.len() {
        let m = chat::session(c).messages;
        let id = c.calls[j].id;
        if chat::is_answered(c, id) {
            let k = choose|k: int| 0 <= k < c.next && (#[trigger] c.calls[k]).id == id;
            assert(has_result(m, from, c.calls[k].id));
            lemma_filled_answers(c, j + 1, from);
        } else {
            let d = chat::said(c, session::tool_msg(id, "（用户打断，未执行）"@));
            let n = chat::session(d).messages;
            assert(n == m.push(session::tool_msg(id, "（用户打断，未执行）"@)));
            assert forall|k: int|
                0 <= k < d.calls.len() && (k < d.next || k < j + 1) implies has_result(
                n,
                from,
                (#[trigger] d.calls[k]).id,
            ) by {
                if k == j {
                    assert(n[n.len() - 1].tool_call_id == Some(id));
                } else {
                    assert(has_result(m, from, c.calls[k].id));
                    let i = choose|i: int|
                        from <= i < m.len() && (#[trigger] m[i]).role == "tool"@
                            && m[i].tool_call_id == Some(c.calls[k].id);
                    assert(n[i] == m[i]);
                }
            }
            lemma_filled_answers(d, j + 1, from);
        }
    }
}

/// Where the user breaks off among the tools of a turn, every call of the turn still
/// has a result after the turn's message: its own, or a placeholder.
pub proof fn law_breaking_off_leaves_no_call_open(c: chat::ChatV, now: u64, k: int)
    requires
        chat::wf(c),
        c.phase is ToolPoll,
        in_turn(c),
        0 <= k < c.calls.len(),
    ensures
        has_result(
            chat::session(
                chat::stepped(c, chat::EventV::Interrupted(true), now).chat,
            ).messages,
            chat::session(c).messages.len() - c.next,
            c.calls[k].id,
        ),
{
    let m = chat::session(c).messages;
    let from = m.len() - c.next;
    assert forall|k: int| 0 <= k < c.calls.len() && (k < c.next || k < 0) implies has_result(
        m,
        from,
        (#[trigger] c.calls[k]).id,
    ) by {
        assert(result_at(m, c.next, k, c.calls[k].id));
        assert(m[m.len() - c.next + k].tool_call_id == Some(c.calls[k].id));
    }
    lemma_filled_answers(c, 0, from);
    lemma_filled(c, 0);
    let f = chat::session(chat::filled(c, 0)).messages;
    let d = chat::session(chat::stepped(c, chat::EventV::Interrupted(true), now).chat).messages;
    assert(has_result(f, from, c.calls[k].id));
    let i = choose|i: int|
        from <= i < f.len() && (#[trigger] f[i]).role == "tool"@ && f[i].tool_call_id == Some(
            c.calls[k].id,
        );
    assert(d[i] == f[i]);
}

/// The trace of a conversation keeps its last lines, at most `MAX_TRACE` of them.
pub proof fn law_trace_is_bounded(trace: Seq<Seq<char>>)
    ensures
        chat::capped(trace).len() <= session::MAX_TRACE,
        chat::capped(trace).is_suffix_of(trace),
{
}

/// A run that is over has saved the conversations as they are then, before it replies;
/// only a run that the budget stopped saves nothing.
pub proof fn law_what_ends_is_saved(
    cfg: Config,
    store: session::StoreV,
    input: Seq<char>,
    clock: Seq<char>,
    stamp: Stamp,
    c: chat::ChatV,
    e: chat::EventV,
    now: u64,
)
    requires
        chat::takes(c, e),
    ensures
        ({
            let m = chat::begun(cfg, store, input, clock, stamp, now);
            m.out.request is Reply ==> m.chat.phase is Done && m.out.effects.contains(
                chat::EffectV::Save(m.chat.store),
            )
        }),
        ({
            let m = chat::stepped(c, e, now);
            m.out.request is Reply ==> m.chat.phase is Done && (m.out.effects.contains(
                chat::EffectV::Save(m.chat.store),
            ) || (e matches chat::EventV::Budget { exhausted, spent, budget } && exhausted))
        }),
{
    let m = chat::begun(cfg, store, input, clock, stamp, now);
    if m.out.request is Reply {
        assert(m.out.effects[0] == chat::EffectV::Save(m.chat.store));
    }
    let n = chat::stepped(c, e, now);
    if n.out.request is Reply && !(e is Budget) {
        assert(n.out.effects[0] == chat::EffectV::Save(n.chat.store));
    }
}

/// How far a run is from its end: the steps that are left, whether what comes next can
/// open a turn, and what is left of the turn.
pub open spec fn distance(c: chat::ChatV) -> (int, int, int) {
    let steps = c.cfg.max_steps - c.step;
    let calls = c.calls.len() - c.next;
    match c.phase {
        chat::PhaseV::Budget(_) => (steps, 1, 0),
        chat::PhaseV::Turn => (steps, 1, 0),
        chat::PhaseV::ToolPoll => (steps, 0, 3 + 2 * calls),
        chat::PhaseV::Tool => (steps, 0, 2 + 2 * calls),
        chat::PhaseV::Poll => (steps, 0, 2),
        chat::PhaseV::Confirmed(_) => (steps, 0, 1),
        chat::PhaseV::Settle(_) => (steps, 0, 1),
        chat::PhaseV::Done => (steps, 0, 0),
    }
}

/// Every run comes to its end: each move brings it nearer, in an order in which nothing
/// gets nearer forever, and a run that is over takes nothing more.
pub proof fn law_every_run_ends(c: chat::ChatV, e: chat::EventV, now: u64)
    requires
        chat::wf(c),
        chat::takes(c, e),
    ensures
        ({
            let a = distance(c);
            let b = distance(chat::stepped(c, e, now).chat);
            &&& b.0 >= 0 && b.1 >= 0 && b.2 >= 0
            &&& b.0 < a.0 || (b.0 == a.0 && (b.1 < a.1 || (b.1 == a.1 && b.2 < a.2)))
        }),
        !(c.phase is Done),
        chat::stepped(c, e, now).out.request is Reply <==> chat::stepped(c, e, now).chat.phase is Done,
{
    if c.phase is ToolPoll {
        lemma_filled(c, 0);
    }
}

proof fn lemma_find_kept(s: Seq<session::SessionV>, at: int, x: session::SessionV, id: Seq<char>, i: int)
    requires
        0 <= i,
        0 <= at < s.len(),
        x.id == s[at].id,
    ensures
        session::find_from(s.update(at, x), id, i) == session::find_from(s, id, i),
    decreases s.len() - i,
{
    if i < s.len() {
        lemma_find_kept(s, at, x, id, i + 1);
    }
}

/// Where the user declines, the write that awaited is gone for good: the conversation
/// gains what was said, nothing is run, and whatever the user says next, a yes
/// included, runs nothing.
pub proof fn law_a_yes_after_a_no_runs_nothing(
    cfg: Config,
    store: session::StoreV,
    no: Seq<char>,
    clock: Seq<char>,
    stamp: Stamp,
    now: u64,
    next_cfg: Config,
    next: Seq<char>,
    next_clock: Seq<char>,
    next_stamp: Stamp,
    later: u64,
)
    requires
        chat::is_no(text::trimmed(no)),
        chat::session(chat::opening(cfg, store, no, clock, stamp)).pending is Some,
    ensures
        ({
            let before = chat::session(chat::opening(cfg, store, no, clock, stamp));
            let m = chat::begun(cfg, store, no, clock, stamp, now);
            let answer = "已取消："@ + before.pending->Some_0.summary;
            &&& m.out.request is Reply
            &&& m.out.effects == chat::no_effects().push(chat::EffectV::Save(m.chat.store))
            &&& chat::session(m.chat).pending is None
            &&& chat::session(m.chat).messages == before.messages.push(
                session::plain_msg("user"@, "取消"@),
            ).push(session::plain_msg("assistant"@, answer))
            &&& !(chat::begun(
                next_cfg,
                m.chat.store,
                next,
                next_clock,
                next_stamp,
                later,
            ).out.request is Execute)
        }),
{
    session::lemma_activated(store, stamp);
    let c = chat::opening(cfg, store, no, clock, stamp);
    let m = chat::begun(cfg, store, no, clock, stamp, now);
    let kept = m.chat.store;
    session::lemma_activated(kept, next_stamp);
    let start = session::activated(store, stamp).sessions;
    let x = chat::session(m.chat);
    assert(kept.sessions =~= start.update(c.at, x));
    lemma_find_kept(start, c.at, x, kept.active, 0);
    reveal_strlit("s");
    assert(kept.active.len() > 0);
    assert(session::has_active(kept));
    assert(chat::session(
        chat::opening(next_cfg, kept, next, next_clock, next_stamp),
    ).pending is None);
}

} // verus!
