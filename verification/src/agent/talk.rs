//! What goes in and out of a run: what the model is sent, what is taken down of its
//! turns and of the tools, and what the user is told in the end.

use crate::agent;
use crate::agent::chat;
use crate::config::Config;
use crate::json;
use crate::json::names;
use crate::llm;
use crate::session;
use crate::session::Stamp;
use crate::text;
use crate::tools::defs;
use crate::tools::plan;
use vstd::prelude::*;

verus! {

/// The object carries the message: its role, its content and its tool calls under
/// their names. A turn of the model without content carries an empty one; what the
/// model thought goes only with the calls that it led to.
pub open spec fn carries(t: json::Tree, m: session::MsgV) -> bool {
    &&& json::field(t, "role"@) == Some(json::Tree::Str(m.role))
    &&& m.content matches Some(x) ==> json::field(t, "content"@) == Some(json::Tree::Str(x))
    &&& m.content is None && m.role == "assistant"@ ==> json::field(t, "content"@) == Some(
        json::Tree::Str(Seq::empty()),
    )
    &&& m.content is None && m.role != "assistant"@ ==> json::field(t, "content"@) is None
    &&& json::field(t, "tool_calls"@) == m.tool_calls
    &&& m.tool_call_id matches Some(x) ==> json::field(t, "tool_call_id"@) == Some(
        json::Tree::Str(x),
    )
    &&& m.tool_call_id is None ==> json::field(t, "tool_call_id"@) is None
    &&& m.name matches Some(x) ==> json::field(t, "name"@) == Some(json::Tree::Str(x))
    &&& m.name is None ==> json::field(t, "name"@) is None
    &&& json::field(t, "reasoning_content"@) == if m.role == "assistant"@ && m.tool_calls is Some
        && m.reasoning is Some && m.reasoning->Some_0.len() > 0 {
        Some(json::Tree::Str(m.reasoning->Some_0))
    } else {
        None
    }
}

/// A message is sent with all that it says.
pub proof fn law_a_message_is_sent_as_it_is(m: session::MsgV)
    ensures
        carries(session::sent(m), m),
{
    names::lemma_apart();
    reveal_with_fuel(json::field_from, 7);
}

/// While a conversation is within what the model can take, the model is sent all of it:
/// the message of the system, then every message of the conversation in order, those of
/// earlier runs included. The request also names the model, says whether to stream, and
/// offers the tools.
pub proof fn law_the_model_is_sent_the_whole_conversation(c: chat::ChatV, now: u64)
    requires
        chat::wf(c),
        c.phase is Poll,
        c.step < c.cfg.max_steps,
        session::history(
            Seq::<session::MsgV>::empty().push(c.system) + c.store.sessions[c.at].messages,
        ) <= c.cfg.max_context,
    ensures
        chat::stepped(c, chat::EventV::Interrupted(false), now).out.request matches chat::RequestV::Ask {
            body,
            count,
        } && {
            let messages = c.store.sessions[c.at].messages;
            &&& count == messages.len() + 1
            &&& json::field(body, "messages"@) matches Some(json::Tree::Arr(sent)) && sent.len()
                == count && carries(sent[0], c.system) && forall|i: int|
                0 <= i < messages.len() ==> carries(#[trigger] sent[i + 1], messages[i])
            &&& json::field(body, "model"@) == Some(json::Tree::Str(c.cfg.model@))
            &&& json::field(body, "stream"@) == Some(json::Tree::Bool(c.cfg.stream))
            &&& json::field(body, "tools"@) matches Some(json::Tree::Arr(tools)) && tools.len()
                == 25 && forall|i: int|
                0 <= i < tools.len() ==> (#[trigger] tools[i]) == defs::function(defs::tools()[i])
            &&& json::field(body, "tool_choice"@) == Some(json::Tree::Str("auto"@))
        },
        chat::stepped(c, chat::EventV::Interrupted(false), now).chat.store == c.store,
        chat::stepped(c, chat::EventV::Interrupted(false), now).chat.step == c.step + 1,
        chat::stepped(c, chat::EventV::Interrupted(false), now).chat.phase is Turn,
{
    names::lemma_apart();
    reveal_with_fuel(json::field_from, 7);
    let messages = c.store.sessions[c.at].messages;
    let all = Seq::<session::MsgV>::empty().push(c.system) + messages;
    law_a_message_is_sent_as_it_is(c.system);
    let sent = llm::sent_all(all);
    assert(all[0] == c.system);
    assert forall|i: int| 0 <= i < messages.len() implies carries(#[trigger] sent[i + 1], messages[i]) by {
        assert(all[i + 1] == messages[i]);
        law_a_message_is_sent_as_it_is(messages[i]);
    }
}

/// A longer conversation is sent from the system's message and its latest messages: what
/// is left out is a run of the oldest, and what is sent is as it was said, but for tool
/// results that were cut short.
pub proof fn law_the_model_is_sent_the_latest(c: chat::ChatV, now: u64) -> (r: (
    Seq<session::MsgV>,
    int,
))
    requires
        chat::wf(c),
        c.phase is Poll,
        c.step < c.cfg.max_steps,
        session::paired(
            Seq::<session::MsgV>::empty().push(c.system) + c.store.sessions[c.at].messages,
            1,
        ),
    ensures
        r.0.len() == c.store.sessions[c.at].messages.len(),
        0 <= r.1 <= r.0.len(),
        r.0.len() > 0 && c.store.sessions[c.at].messages.last().role != "tool"@ ==> r.1
            < r.0.len(),
        forall|i: int|
            0 <= i < r.0.len() ==> (#[trigger] r.0[i]) == c.store.sessions[c.at].messages[i] || (
            c.store.sessions[c.at].messages[i].role == "tool"@ && r.0[i] == session::shortened(
                c.store.sessions[c.at].messages[i],
            )),
        chat::stepped(c, chat::EventV::Interrupted(false), now).out.request matches chat::RequestV::Ask {
            body,
            count,
        } && {
            &&& count == r.0.len() - r.1 + 1
            &&& json::field(body, "messages"@) matches Some(json::Tree::Arr(sent)) && sent.len()
                == count && carries(sent[0], c.system) && forall|i: int|
                r.1 <= i < r.0.len() ==> carries(#[trigger] sent[i - r.1 + 1], r.0[i])
        },
{
    names::lemma_apart();
    reveal_with_fuel(json::field_from, 7);
    let messages = c.store.sessions[c.at].messages;
    let all = Seq::<session::MsgV>::empty().push(c.system) + messages;
    let (cut, j) = session::law_trimming_drops_the_oldest(all, 1, c.cfg.max_context as nat);
    let kept = session::trimmed_history(all, c.cfg.max_context as nat);
    let sent = llm::sent_all(kept);
    let r = (cut.skip(1), j - 1);
    assert(kept[0] == c.system);
    law_a_message_is_sent_as_it_is(c.system);
    assert forall|i: int| 0 <= i < r.0.len() implies (#[trigger] r.0[i]) == messages[i] || (
    messages[i].role == "tool"@ && r.0[i] == session::shortened(messages[i])) by {
        assert(cut[i + 1] == r.0[i]);
        assert(all[i + 1] == messages[i]);
    }
    if messages.len() > 0 {
        assert(all.last() == messages.last());
    }
    assert forall|i: int| r.1 <= i < r.0.len() implies carries(#[trigger] sent[i - r.1 + 1], r.0[i]) by {
        assert(kept[i - r.1 + 1] == cut.skip(j)[i - r.1]);
        law_a_message_is_sent_as_it_is(r.0[i]);
    }
    r
}

/// A tool result that is cut short keeps its first sixty characters, and says that the
/// rest is left out; nothing else of the message changes.
pub proof fn law_a_short_result_keeps_its_beginning(m: session::MsgV, x: Seq<char>)
    requires
        m.content == Some(x),
    ensures
        session::shortened(m).content == Some(
            (if x.len() <= 60 {
                x
            } else {
                x.take(60)
            }) + "（早前工具结果已省略）"@,
        ),
        session::shortened(m).role == m.role,
        session::shortened(m).tool_call_id == m.tool_call_id,
        session::shortened(m).tool_calls == m.tool_calls,
        session::shortened(m).name == m.name,
{
}

/// A run goes on with the active conversation: what was said in it stays, the other
/// conversations stay as they are, and before anything else what was spent is held
/// against the budget.
pub proof fn law_a_run_goes_on_with_the_active_conversation(
    cfg: Config,
    store: session::StoreV,
    input: Seq<char>,
    clock: Seq<char>,
    stamp: Stamp,
    now: u64,
    at: int,
)
    requires
        0 <= at < store.sessions.len(),
        store.active.len() > 0,
        store.sessions[at].id == store.active,
        forall|k: int| 0 <= k < at ==> (#[trigger] store.sessions[k]).id != store.active,
        store.sessions[at].pending is None,
    ensures
        ({
            let m = chat::begun(cfg, store, input, clock, stamp, now);
            &&& m.chat.at == at
            &&& m.chat.step == 0
            &&& m.chat.cfg == cfg
            &&& m.chat.phase == chat::PhaseV::Budget(input)
            &&& m.chat.store.active == store.active
            &&& m.chat.store.sessions.len() == store.sessions.len()
            &&& m.chat.store.sessions[at].messages == store.sessions[at].messages
            &&& m.chat.store.sessions[at].id == store.active
            &&& forall|k: int|
                0 <= k < store.sessions.len() && k != at ==> (#[trigger] m.chat.store.sessions[k])
                    == store.sessions[k]
            &&& m.chat.system.role == "system"@
            &&& m.chat.system.content == Some(agent::prompt(clock, cfg))
            &&& m.chat.system.tool_calls is None
            &&& m.out.request == (chat::RequestV::Budget {
                spent: store.totals_cost_usd,
                budget: cfg.budget_usd@,
            })
        }),
{
    lemma_found(store.sessions, store.active, at, 0);
}

proof fn lemma_found(s: Seq<session::SessionV>, id: Seq<char>, at: int, i: int)
    requires
        0 <= i <= at < s.len(),
        s[at].id == id,
        forall|k: int| 0 <= k < at ==> (#[trigger] s[k]).id != id,
    ensures
        session::find_from(s, id, i) == at,
    decreases at - i,
{
    if i < at {
        lemma_found(s, id, at, i + 1);
    }
}

/// A conversation that has a title keeps it; one without is called by the first
/// twenty-four characters of what the user says first.
pub proof fn law_a_conversation_is_called_by_its_first_words(
    cfg: Config,
    store: session::StoreV,
    input: Seq<char>,
    clock: Seq<char>,
    stamp: Stamp,
    now: u64,
    at: int,
)
    requires
        0 <= at < store.sessions.len(),
        store.active.len() > 0,
        store.sessions[at].id == store.active,
        forall|k: int| 0 <= k < at ==> (#[trigger] store.sessions[k]).id != store.active,
        store.sessions[at].pending is None,
    ensures
        chat::begun(cfg, store, input, clock, stamp, now).chat.store.sessions[at].title == if store.sessions[at].title
            != "新会话"@ && store.sessions[at].messages.len() > 0 {
            store.sessions[at].title
        } else if input.len() <= 24 {
            input
        } else {
            input.take(24)
        },
{
    lemma_found(store.sessions, store.active, at, 0);
}

/// While the budget lasts, what the user said is the last message of the conversation,
/// word for word, and the messages before it stay.
pub proof fn law_the_input_is_taken_down(
    c: chat::ChatV,
    input: Seq<char>,
    spent: Seq<char>,
    budget: Seq<char>,
    now: u64,
)
    requires
        chat::wf(c),
        c.phase == chat::PhaseV::Budget(input),
    ensures
        ({
            let m = chat::stepped(
                c,
                chat::EventV::Budget { exhausted: false, spent, budget },
                now,
            );
            let before = c.store.sessions[c.at].messages;
            let after = m.chat.store.sessions[c.at].messages;
            &&& after.len() == before.len() + 1
            &&& after.take(before.len() as int) == before
            &&& after.last().role == "user"@
            &&& after.last().content == Some(input)
            &&& after.last().tool_calls is None
            &&& m.chat.snapshot == before
            &&& m.chat.phase is Poll
            &&& m.out.request is Poll
        }),
{
}

/// Once the budget is used up nothing is said or kept: the user is told what was spent
/// and what the budget is.
pub proof fn law_a_used_up_budget_is_told(
    c: chat::ChatV,
    input: Seq<char>,
    spent: Seq<char>,
    budget: Seq<char>,
    now: u64,
)
    requires
        chat::wf(c),
        c.phase == chat::PhaseV::Budget(input),
    ensures
        ({
            let m = chat::stepped(
                c,
                chat::EventV::Budget { exhausted: true, spent, budget },
                now,
            );
            &&& m.chat.store == c.store
            &&& m.chat.phase is Done
            &&& m.out.effects.len() == 0
            &&& m.out.request matches chat::RequestV::Reply(v) && json::field(v, "ok"@) == Some(
                json::Tree::Bool(false),
            ) && json::field(v, "type"@) == Some(json::Tree::Str("chat"@)) && json::field(
                v,
                "error"@,
            ) == Some(
                json::Tree::Str(
                    "已达 Token 预算上限（已用 "@ + spent + " $ / 预算 "@ + budget
                        + " $）。可在插件设置里调高「预算」。"@,
                ),
            )
        }),
{
    names::lemma_apart();
    reveal_with_fuel(json::field_from, 4);
}

/// The words that confirm a write, and no others.
pub open spec fn says_yes(w: Seq<char>) -> bool {
    ||| w == "确认"@
    ||| w == "确定"@
    ||| w == "是"@
    ||| w == "y"@
    ||| w == "Y"@
    ||| w == "yes"@
    ||| w == "ok"@
    ||| w == "OK"@
    ||| w == "好"@
    ||| w == "同意"@
    ||| w == "执行"@
}

/// The words that drop a write, and no others.
pub open spec fn says_no(w: Seq<char>) -> bool {
    ||| w == "取消"@
    ||| w == "不"@
    ||| w == "n"@
    ||| w == "N"@
    ||| w == "no"@
    ||| w == "算了"@
    ||| w == "放弃"@
    ||| w == "不了"@
}

/// What becomes of a write that awaits the user's word. On a yes it is what is run, with
/// its own arguments. On a no it is dropped, which the conversation takes down and the
/// user is told. On anything else it is dropped too, and what the user said is taken as
/// a new message.
pub proof fn law_a_write_waits_for_the_word(
    cfg: Config,
    store: session::StoreV,
    input: Seq<char>,
    clock: Seq<char>,
    stamp: Stamp,
    now: u64,
    at: int,
    p: session::PendingV,
)
    requires
        0 <= at < store.sessions.len(),
        store.active.len() > 0,
        store.sessions[at].id == store.active,
        forall|k: int| 0 <= k < at ==> (#[trigger] store.sessions[k]).id != store.active,
        store.sessions[at].pending == Some(p),
    ensures
        ({
            let m = chat::begun(cfg, store, input, clock, stamp, now);
            let w = text::trimmed(input);
            let before = store.sessions[at].messages;
            let after = m.chat.store.sessions[at].messages;
            &&& says_yes(w) ==> m.out.request == (chat::RequestV::Execute {
                tool: p.tool,
                args: p.args,
                confirmed: true,
            }) && after == before && m.chat.phase == chat::PhaseV::Confirmed(p)
                && m.out.effects.len() == 1 && shows(
                m.out.effects[0],
                "tool"@,
                "执行已确认："@ + p.summary,
            )
            &&& says_no(w) ==> {
                &&& m.chat.store.sessions[at].pending is None
                &&& m.chat.phase is Done
                &&& after.len() == before.len() + 2
                &&& after.take(before.len() as int) == before
                &&& after[before.len() as int].role == "user"@
                &&& after[before.len() as int].content == Some("取消"@)
                &&& after.last().role == "assistant"@
                &&& after.last().content == Some("已取消："@ + p.summary)
                &&& m.chat.store.sessions[at].updated_at == now
                &&& m.out.effects.len() == 1
                &&& m.out.effects[0] == chat::EffectV::Save(m.chat.store)
                &&& m.out.request matches chat::RequestV::Reply(v) && json::field(v, "ok"@)
                    == Some(json::Tree::Bool(true)) && json::field(v, "answer"@) == Some(
                    json::Tree::Str("已取消："@ + p.summary),
                ) && json::field(v, "sessionId"@) == Some(json::Tree::Str(store.active))
            }
            &&& !says_yes(w) && !says_no(w) ==> {
                &&& m.chat.store.sessions[at].pending is None
                &&& after == before
                &&& m.chat.phase == chat::PhaseV::Budget(input)
                &&& m.out.request is Budget
            }
        }),
{
    lemma_found(store.sessions, store.active, at, 0);
    names::lemma_apart();
    reveal_with_fuel(json::field_from, 6);
    super::laws::law_yes_is_not_no(text::trimmed(input));
}

/// The conversation got these two messages, and kept the others.
pub open spec fn exchanged(
    before: Seq<session::MsgV>,
    after: Seq<session::MsgV>,
    user: Seq<char>,
    assistant: Seq<char>,
) -> bool {
    &&& after.len() == before.len() + 2
    &&& after.take(before.len() as int) == before
    &&& after[before.len() as int].role == "user"@
    &&& after[before.len() as int].content == Some(user)
    &&& after.last().role == "assistant"@
    &&& after.last().content == Some(assistant)
}

/// A confirmed write that was done is told with its summary and its result, one that
/// failed with the reason; either way it awaits nothing any more, the conversation takes
/// down both sides, and what the user is told says whether it was done.
pub proof fn law_a_confirmed_write_is_reported(
    c: chat::ChatV,
    p: session::PendingV,
    result: plan::Outcome,
    elapsed: u64,
    now: u64,
)
    requires
        chat::wf(c),
        c.phase == chat::PhaseV::Confirmed(p),
    ensures
        ({
            let m = chat::stepped(c, chat::EventV::Outcome { result, elapsed }, now);
            let after = m.chat.store.sessions[c.at];
            let answer = match result {
                Ok(plan::OutV::Text(t)) => "✅ 已执行："@ + p.summary + "\n"@ + agent::humane(
                    t,
                    json::json_read(t),
                ),
                Ok(_) => "已处理："@ + p.summary,
                Err(e) => "❌ 执行失败："@ + e + "\n操作未生效，可重试或换一个目标。"@,
            };
            &&& after.pending is None
            &&& after.updated_at == now
            &&& exchanged(c.store.sessions[c.at].messages, after.messages, "确认"@, answer)
            &&& m.chat.phase is Done
            &&& m.out.effects.len() == 1
            &&& m.out.effects[0] == chat::EffectV::Save(m.chat.store)
            &&& m.out.request matches chat::RequestV::Reply(v) && json::field(v, "answer"@) == Some(
                json::Tree::Str(answer),
            ) && json::field(v, "executed"@) == Some(json::Tree::Bool(result is Ok)) && json::field(
                v,
                "ok"@,
            ) == Some(json::Tree::Bool(true)) && json::field(v, "sessionId"@) == Some(
                json::Tree::Str(c.store.active),
            )
        }),
{
    names::lemma_apart();
    reveal_with_fuel(json::field_from, 7);
    let before = c.store.sessions[c.at].messages;
    let m = chat::stepped(c, chat::EventV::Outcome { result, elapsed }, now);
    assert(m.chat.store.sessions[c.at].messages.take(before.len() as int) =~= before);
}

/// A turn without tool calls is the answer: its content, word for word, is the last
/// message of the conversation, which is saved, and is what the run ends with. A turn
/// that holds nothing but thoughts is answered with a remark instead.
pub proof fn law_the_models_words_are_the_answer(
    c: chat::ChatV,
    t: llm::TurnV,
    cost: json::Tree,
    now: u64,
)
    requires
        chat::wf(c),
        c.phase is Turn,
        t.tool_calls.len() == 0,
    ensures
        ({
            let m = chat::stepped(
                c,
                chat::EventV::Turn { turn: Ok(t), interrupted: false, cost },
                now,
            );
            let before = c.store.sessions[c.at].messages;
            let after = m.chat.store.sessions[c.at].messages;
            let answer = if text::trimmed(t.content).len() > 0 || t.reasoning.len() == 0 {
                t.content
            } else {
                "（模型只输出了思考过程，没有给出最终回答，可重试或换模型。）"@
            };
            &&& after.len() == before.len() + 1
            &&& after.take(before.len() as int) == before
            &&& after.last().role == "assistant"@
            &&& after.last().content == Some(answer)
            &&& after.last().tool_calls is None
            &&& m.chat.store.sessions[c.at].updated_at == now
            &&& m.chat.phase == chat::PhaseV::Settle(
                chat::EndingV::Answer { answer, interrupted: false },
            )
            &&& m.out.effects.contains(chat::EffectV::Save(m.chat.store))
            &&& m.out.request == (chat::RequestV::Settle {
                session_cost: c.store.sessions[c.at].cost_usd,
                total_cost: c.store.totals_cost_usd,
                run_cost: if t.usage is Some {
                    cost
                } else {
                    c.run_cost
                },
                budget: c.cfg.budget_usd@,
            })
        }),
{
    let m = chat::stepped(c, chat::EventV::Turn { turn: Ok(t), interrupted: false, cost }, now);
    assert(m.out.effects[1] == chat::EffectV::Save(m.chat.store));
}

/// What a turn used is added to what the run used so far, figure by figure, and counts
/// as one call; a turn that tells no usage counts for nothing.
pub proof fn law_a_turn_counts_what_it_used(
    c: chat::ChatV,
    t: llm::TurnV,
    interrupted: bool,
    cost: json::Tree,
    now: u64,
)
    requires
        chat::wf(c),
        c.phase is Turn,
        chat::takes(c, chat::EventV::Turn { turn: Ok(t), interrupted, cost }),
    ensures
        ({
            let d = chat::stepped(c, chat::EventV::Turn { turn: Ok(t), interrupted, cost }, now).chat;
            &&& t.usage matches Some(u) ==> {
                &&& d.run_usage.prompt == c.run_usage.prompt + u.prompt_tokens
                &&& d.run_usage.completion == c.run_usage.completion + u.completion_tokens
                &&& d.run_usage.calls == c.run_usage.calls + 1
                &&& d.run_cost == cost
            }
            &&& t.usage is None ==> d.run_usage == c.run_usage && d.run_cost == c.run_cost
        }),
{
}

/// The object is the tool call, as the model's service has it.
pub open spec fn is_call(v: json::Tree, c: llm::CallV) -> bool {
    &&& json::field(v, "id"@) == Some(json::Tree::Str(c.id))
    &&& json::field(v, "type"@) == Some(json::Tree::Str("function"@))
    &&& json::field(v, "function"@) matches Some(f) && json::field(f, "name"@) == Some(
        json::Tree::Str(c.name),
    ) && json::field(f, "arguments"@) == Some(json::Tree::Str(c.arguments))
}

/// A turn with tool calls is the last message of the conversation, with each of the
/// calls in order; then the tools are run one after the other, from the first on.
pub proof fn law_tool_calls_are_taken_down(
    c: chat::ChatV,
    t: llm::TurnV,
    cost: json::Tree,
    now: u64,
)
    requires
        chat::wf(c),
        c.phase is Turn,
        t.tool_calls.len() > 0,
    ensures
        ({
            let m = chat::stepped(
                c,
                chat::EventV::Turn { turn: Ok(t), interrupted: false, cost },
                now,
            );
            let before = c.store.sessions[c.at].messages;
            let after = m.chat.store.sessions[c.at].messages;
            &&& after.len() == before.len() + 1
            &&& after.take(before.len() as int) == before
            &&& after.last().role == "assistant"@
            &&& after.last().content == if t.content.len() == 0 {
                None
            } else {
                Some(t.content)
            }
            &&& after.last().reasoning == if t.reasoning.len() == 0 {
                None
            } else {
                Some(t.reasoning)
            }
            &&& after.last().tool_calls matches Some(json::Tree::Arr(calls)) && calls.len()
                == t.tool_calls.len() && forall|i: int|
                0 <= i < calls.len() ==> is_call(#[trigger] calls[i], t.tool_calls[i])
            &&& m.chat.calls == t.tool_calls
            &&& m.chat.next == 0
            &&& m.chat.phase is ToolPoll
            &&& m.out.request is Poll
        }),
{
    names::lemma_apart();
    reveal_with_fuel(json::field_from, 4);
}

/// The tool that is up is run by its name, with the JSON that its arguments are; where
/// they are none, with the text itself under a name of its own. It is not taken for
/// confirmed.
pub proof fn law_the_tool_asked_for_is_run(c: chat::ChatV, now: u64)
    requires
        chat::wf(c),
        c.phase is ToolPoll,
    ensures
        ({
            let m = chat::stepped(c, chat::EventV::Interrupted(false), now);
            let call = c.calls[c.next];
            &&& m.chat.store == c.store
            &&& m.chat.phase is Tool
            &&& m.chat.next == c.next
            &&& m.out.request matches chat::RequestV::Execute { tool, args, confirmed } && tool
                == call.name && !confirmed && match json::json_read(call.arguments) {
                Some(v) => args == v,
                None => json::field(args, "_raw"@) == Some(json::Tree::Str(call.arguments)),
            }
        }),
{
    reveal_with_fuel(json::field_from, 2);
}

/// What a tool came to is taken down under the id of its call: the result word for
/// word, or the reason that it failed. Then the next tool is up, or after the last one
/// the next turn of the model, and the conversation is saved.
pub proof fn law_a_result_answers_its_call(
    c: chat::ChatV,
    result: Result<Seq<char>, Seq<char>>,
    elapsed: u64,
    now: u64,
)
    requires
        chat::wf(c),
        c.phase is Tool,
    ensures
        ({
            let outcome: plan::Outcome = match result {
                Ok(t) => Ok(plan::OutV::Text(t)),
                Err(e) => Err(e),
            };
            let m = chat::stepped(c, chat::EventV::Outcome { result: outcome, elapsed }, now);
            let before = c.store.sessions[c.at].messages;
            let after = m.chat.store.sessions[c.at].messages;
            &&& after.len() == before.len() + 1
            &&& after.take(before.len() as int) == before
            &&& after.last().role == "tool"@
            &&& after.last().tool_call_id == Some(c.calls[c.next].id)
            &&& after.last().content == Some(
                match result {
                    Ok(t) => t,
                    Err(e) => "错误："@ + e,
                },
            )
            &&& m.chat.calls == c.calls
            &&& m.chat.next == c.next + 1
            &&& c.next + 1 < c.calls.len() ==> m.chat.phase is ToolPoll
            &&& c.next + 1 == c.calls.len() ==> m.chat.phase is Poll && m.out.effects.last()
                == chat::EffectV::Save(m.chat.store) && m.chat.store.sessions[c.at].updated_at
                == now
            &&& m.out.request is Poll
        }),
{
}

/// A write that needs the user's word awaits it from then on, with its own arguments;
/// its call is answered that it does, the user is asked with the summary, and the run
/// ends.
pub proof fn law_a_write_is_put_to_the_user(
    c: chat::ChatV,
    tool: Seq<char>,
    args: json::Tree,
    summary: Seq<char>,
    elapsed: u64,
    now: u64,
)
    requires
        chat::wf(c),
        c.phase is Tool,
    ensures
        ({
            let m = chat::stepped(
                c,
                chat::EventV::Outcome {
                    result: Ok(plan::OutV::Confirm { tool, args, summary }),
                    elapsed,
                },
                now,
            );
            let before = c.store.sessions[c.at].messages;
            let after = m.chat.store.sessions[c.at].messages;
            let question = "请确认以下操作（回复「确认」执行，回复「取消」放弃）：\n"@ + summary;
            &&& m.chat.store.sessions[c.at].pending == Some(
                session::PendingV { tool, args, summary },
            )
            &&& after.len() == before.len() + 2
            &&& after.take(before.len() as int) == before
            &&& after[before.len() as int].role == "tool"@
            &&& after[before.len() as int].tool_call_id == Some(c.calls[c.next].id)
            &&& after.last().role == "assistant"@
            &&& after.last().content == Some(question)
            &&& m.chat.phase == chat::PhaseV::Settle(
                chat::EndingV::Confirm { answer: question, summary },
            )
        }),
{
}

/// Where the user breaks off before a turn, or the steps are used up, the model is not
/// asked again: the run ends with a remark, and the conversation stays as it is.
pub proof fn law_a_run_that_stops_says_why(c: chat::ChatV, interrupted: bool, now: u64)
    requires
        chat::wf(c),
        c.phase is Poll,
        interrupted || c.step == c.cfg.max_steps,
    ensures
        ({
            let m = chat::stepped(c, chat::EventV::Interrupted(interrupted), now);
            &&& m.chat.store == c.store
            &&& m.chat.step == c.step
            &&& m.out.request is Settle
            &&& interrupted ==> m.chat.phase == chat::PhaseV::Settle(
                chat::EndingV::Answer { answer: "（已打断）"@, interrupted: true },
            )
            &&& !interrupted ==> m.chat.phase == chat::PhaseV::Settle(
                chat::EndingV::Answer {
                    answer: "已达到单次任务的工具调用步数上限，任务中止。你可以让我继续或换个问法。"@,
                    interrupted: false,
                },
            )
        }),
{
}

/// In the end what the run used is added to what the conversation and what all of them
/// used, figure by figure; the costs are those that were reckoned; what was said stays,
/// and all of it is saved.
pub proof fn law_what_a_run_used_is_added(
    c: chat::ChatV,
    ending: chat::EndingV,
    session_cost: json::Tree,
    total_cost: json::Tree,
    left: json::Tree,
    spent: Seq<char>,
    now: u64,
)
    requires
        chat::wf(c),
        c.phase == chat::PhaseV::Settle(ending),
        chat::takes(c, chat::EventV::Settled { session_cost, total_cost, left, spent }),
    ensures
        ({
            let m = chat::stepped(
                c,
                chat::EventV::Settled { session_cost, total_cost, left, spent },
                now,
            );
            let before = c.store.sessions[c.at];
            let after = m.chat.store.sessions[c.at];
            &&& after.usage.prompt == before.usage.prompt + c.run_usage.prompt
            &&& after.usage.completion == before.usage.completion + c.run_usage.completion
            &&& after.usage.calls == before.usage.calls + c.run_usage.calls
            &&& after.cost_usd == session_cost
            &&& after.messages == before.messages
            &&& after.pending == before.pending
            &&& m.chat.store.totals.prompt == c.store.totals.prompt + c.run_usage.prompt
            &&& m.chat.store.totals.completion == c.store.totals.completion + c.run_usage.completion
            &&& m.chat.store.totals.calls == c.store.totals.calls + c.run_usage.calls
            &&& m.chat.store.totals_cost_usd == total_cost
            &&& m.chat.phase is Done
            &&& m.out.effects.len() == if ending is Answer {
                2nat
            } else {
                1nat
            }
            &&& m.out.effects[0] == chat::EffectV::Save(m.chat.store)
        }),
{
}

/// The object tells what was used, and what it cost.
pub open spec fn tells_usage(v: json::Tree, prompt: u64, completion: u64, cost: json::Tree) -> bool {
    &&& json::field(v, "prompt"@) == Some(json::Tree::Pos(prompt))
    &&& json::field(v, "completion"@) == Some(json::Tree::Pos(completion))
    &&& json::field(v, "costUsd"@) == Some(cost)
}

/// What the user is told in the end: the answer that the run came to, what is to be
/// confirmed, that it was broken off, or the error; and with an answer what the run, the
/// conversation and all of them used, and what is left of the budget.
pub proof fn law_the_user_is_told_the_answer(
    c: chat::ChatV,
    ending: chat::EndingV,
    session_cost: json::Tree,
    total_cost: json::Tree,
    left: json::Tree,
    spent: Seq<char>,
    now: u64,
)
    requires
        chat::wf(c),
        c.phase == chat::PhaseV::Settle(ending),
        chat::takes(c, chat::EventV::Settled { session_cost, total_cost, left, spent }),
    ensures
        chat::stepped(
            c,
            chat::EventV::Settled { session_cost, total_cost, left, spent },
            now,
        ).out.request matches chat::RequestV::Reply(v) && {
            let d = chat::stepped(
                c,
                chat::EventV::Settled { session_cost, total_cost, left, spent },
                now,
            ).chat;
            let mine = d.store.sessions[c.at].usage;
            &&& json::field(v, "type"@) == Some(json::Tree::Str("chat"@))
            &&& json::field(v, "sessionId"@) == Some(json::Tree::Str(c.store.active))
            &&& json::field(v, "ok"@) == Some(json::Tree::Bool(!(ending is Failed)))
            &&& ending matches chat::EndingV::Failed { error } ==> json::field(v, "error"@) == Some(
                json::Tree::Str(error),
            )
            &&& ending is Broken ==> json::field(v, "answer"@) == Some(
                json::Tree::Str("（已打断）"@),
            ) && json::field(v, "interrupted"@) == Some(json::Tree::Bool(true))
            &&& ending matches chat::EndingV::Answer { answer, interrupted } ==> json::field(
                v,
                "answer"@,
            ) == Some(json::Tree::Str(answer)) && json::field(v, "interrupted"@) == Some(
                json::Tree::Bool(interrupted),
            )
            &&& ending matches chat::EndingV::Confirm { answer, summary } ==> {
                &&& json::field(v, "answer"@) == Some(json::Tree::Str(answer))
                &&& json::field(v, "confirm"@) matches Some(q) && json::field(q, "summary"@) == Some(
                    json::Tree::Str(summary),
                )
            }
            &&& ending is Answer || ending is Confirm ==> {
                &&& json::field(v, "usage"@) matches Some(u) && tells_usage(
                    u,
                    c.run_usage.prompt,
                    c.run_usage.completion,
                    c.run_cost,
                ) && json::field(u, "calls"@) == Some(json::Tree::Pos(c.run_usage.calls))
                &&& json::field(v, "sessionUsage"@) matches Some(u) && tells_usage(
                    u,
                    mine.prompt,
                    mine.completion,
                    session_cost,
                )
                &&& json::field(v, "totalUsage"@) matches Some(u) && tells_usage(
                    u,
                    d.store.totals.prompt,
                    d.store.totals.completion,
                    total_cost,
                ) && json::field(u, "calls"@) == Some(json::Tree::Pos(d.store.totals.calls))
                    && json::field(u, "budgetUsd"@) == Some(c.cfg.budget_usd@) && json::field(
                    u,
                    "budgetLeftUsd"@,
                ) == Some(left)
            }
        },
{
    names::lemma_apart();
    reveal_with_fuel(json::field_from, 9);
}

/// A notification of progress: of what kind it is, and what it says.
pub open spec fn shows(e: chat::EffectV, kind: Seq<char>, t: Seq<char>) -> bool {
    e matches chat::EffectV::Progress(v) && json::field(v, "kind"@) == Some(
        json::Tree::Str(kind),
    ) && json::field(v, "text"@) == Some(json::Tree::Str(t))
}

/// The user sees which step the model is at and of how many, and which tool is run.
pub proof fn law_the_user_sees_each_step(c: chat::ChatV, now: u64)
    requires
        chat::wf(c),
    ensures
        ({
            let m = chat::stepped(c, chat::EventV::Interrupted(false), now);
            &&& c.phase is Poll && c.step < c.cfg.max_steps ==> m.out.effects.len() == 1 && shows(
                m.out.effects[0],
                "notice"@,
                "思考中…（第 "@ + text::decimal((c.step + 1) as nat) + " 步）"@,
            ) && (m.out.effects[0] matches chat::EffectV::Progress(v) && json::field(v, "payload"@)
                matches Some(p) && json::field(p, "step"@) == Some(
                json::Tree::Pos((c.step + 1) as u64),
            ) && json::field(p, "total"@) == Some(json::Tree::Pos(c.cfg.max_steps as u64)))
            &&& c.phase is ToolPoll ==> m.out.effects.len() == 2 && shows(
                m.out.effects[0],
                "tool"@,
                "🔧 "@ + c.calls[c.next].name,
            ) && (m.out.request matches chat::RequestV::Execute { tool, args, confirmed } && shows(
                m.out.effects[1],
                "log"@,
                "→ 工具 "@ + tool + " · 步骤 "@ + text::decimal(c.step as nat) + " · 参数 "@ + (
                if json::json_text(args).len() <= 160 {
                    json::json_text(args)
                } else {
                    json::json_text(args).take(160)
                }),
            ))
        }),
{
    names::lemma_apart();
    reveal_with_fuel(json::field_from, 4);
}

/// With an answer the user sees what was spent, and what the conversation and all of
/// them used and cost.
pub proof fn law_the_user_sees_what_was_spent(
    c: chat::ChatV,
    answer: Seq<char>,
    interrupted: bool,
    session_cost: json::Tree,
    total_cost: json::Tree,
    left: json::Tree,
    spent: Seq<char>,
    now: u64,
)
    requires
        chat::wf(c),
        c.phase == chat::PhaseV::Settle(chat::EndingV::Answer { answer, interrupted }),
        chat::takes(c, chat::EventV::Settled { session_cost, total_cost, left, spent }),
    ensures
        ({
            let m = chat::stepped(
                c,
                chat::EventV::Settled { session_cost, total_cost, left, spent },
                now,
            );
            let s = m.chat.store.sessions[c.at];
            &&& m.out.effects.len() == 2
            &&& shows(m.out.effects[1], "usage"@, spent)
            &&& m.out.effects[1] matches chat::EffectV::Progress(v) && json::field(v, "payload"@)
                matches Some(p) && json::field(p, "sessionCostUsd"@) == Some(session_cost)
                && json::field(p, "totalCostUsd"@) == Some(total_cost) && json::field(
                p,
                "budgetUsd"@,
            ) == Some(c.cfg.budget_usd@) && json::field(p, "budgetLeftUsd"@) == Some(left)
                && json::field(p, "sessionPrompt"@) == Some(json::Tree::Pos(s.usage.prompt))
                && json::field(p, "sessionCompletion"@) == Some(
                json::Tree::Pos(s.usage.completion),
            ) && json::field(p, "totalPrompt"@) == Some(
                json::Tree::Pos(m.chat.store.totals.prompt),
            ) && json::field(p, "totalCompletion"@) == Some(
                json::Tree::Pos(m.chat.store.totals.completion),
            ) && json::field(p, "totalCalls"@) == Some(
                json::Tree::Pos(m.chat.store.totals.calls),
            )
        }),
{
    names::lemma_apart();
    reveal_with_fuel(json::field_from, 10);
}

/// A trace with one more line, of which the last hundred and fifty are kept.
pub open spec fn traced(before: Seq<Seq<char>>, line: Seq<char>) -> Seq<Seq<char>> {
    if before.len() < 150 {
        before.push(line)
    } else {
        before.push(line).skip(before.len() as int - 149)
    }
}

/// The trace tells what was said and what was run: the beginning of the user's words, each
/// tool with the size of its result or its error, what awaits the user's word, and what
/// was run on it.
pub proof fn law_the_trace_tells_what_happened(
    c: chat::ChatV,
    x: Seq<char>,
    p: session::PendingV,
    result: plan::Outcome,
    elapsed: u64,
    spent: Seq<char>,
    budget: Seq<char>,
    now: u64,
)
    requires
        chat::wf(c),
    ensures
        ({
            let before = c.store.sessions[c.at].trace;
            let entered = chat::stepped(
                c,
                chat::EventV::Budget { exhausted: false, spent, budget },
                now,
            ).chat.store.sessions[c.at].trace;
            let after = chat::stepped(
                c,
                chat::EventV::Outcome { result, elapsed },
                now,
            ).chat.store.sessions[c.at].trace;
            &&& c.phase == chat::PhaseV::Budget(x) ==> entered == traced(
                before,
                "👤 "@ + (if x.len() <= 40 {
                    x
                } else {
                    x.take(40)
                }),
            )
            &&& c.phase == chat::PhaseV::Confirmed(p) ==> after == before.push("✔ "@ + p.summary)
            &&& c.phase is Tool ==> after == before.push(
                match result {
                    Ok(plan::OutV::Text(t)) => "🔧 "@ + c.calls[c.next].name + " → "@
                        + text::decimal(session::byte_len(t) as nat) + "B"@,
                    Ok(plan::OutV::Confirm { tool, args, summary }) => "⏸ "@ + summary
                        + "（等确认）"@,
                    Err(e) => "✗ "@ + c.calls[c.next].name + "："@ + e,
                },
            )
        }),
{
    let before = c.store.sessions[c.at].trace;
    if let chat::PhaseV::Budget(y) = c.phase {
        let line = "👤 "@ + text::first_chars(y, 40);
        assert(chat::capped(before.push(line)) =~= traced(before, line));
    }
}

/// While tools are run the user sees how long each took, and the beginning of its result
/// or its error.
pub proof fn law_the_user_sees_each_result(
    c: chat::ChatV,
    result: plan::Outcome,
    elapsed: u64,
    now: u64,
)
    requires
        chat::wf(c),
        c.phase is Tool,
    ensures
        ({
            let m = chat::stepped(c, chat::EventV::Outcome { result, elapsed }, now);
            &&& m.out.effects.len() >= 2
            &&& shows(
                m.out.effects[0],
                "log"@,
                "← 工具 "@ + c.calls[c.next].name + " 完成 · "@ + text::decimal(elapsed as nat)
                    + "ms"@,
            )
            &&& result matches Ok(plan::OutV::Text(t)) ==> shows(
                m.out.effects[1],
                "tool"@,
                if t.len() <= 140 {
                    t
                } else {
                    t.take(140)
                },
            )
            &&& result matches Err(e) ==> shows(
                m.out.effects[1],
                "tool"@,
                "✗ "@ + c.calls[c.next].name + "："@ + e,
            )
            &&& result matches Ok(plan::OutV::Confirm { tool, args, summary })
                ==> m.out.effects[1] is Save
        }),
{
    names::lemma_apart();
    reveal_with_fuel(json::field_from, 4);
}

/// A run that is broken off between tools says so, as its answer and in the conversation;
/// one that is broken off while the model is at it, or that the model fails, ends with
/// that, and the conversation is what it was before the run.
pub proof fn law_a_broken_run_says_so(
    c: chat::ChatV,
    turn: Result<llm::TurnV, Seq<char>>,
    interrupted: bool,
    cost: json::Tree,
    now: u64,
)
    requires
        chat::wf(c),
    ensures
        c.phase is ToolPoll ==> {
            let m = chat::stepped(c, chat::EventV::Interrupted(true), now);
            let said = m.chat.store.sessions[c.at].messages;
            &&& m.chat.phase == chat::PhaseV::Settle(
                chat::EndingV::Answer {
                    answer: "（已打断，本轮工具调用已中止）"@,
                    interrupted: true,
                },
            )
            &&& said.len() > 0
            &&& said.last().role == "assistant"@
            &&& said.last().content == Some("（已打断，本轮工具调用已中止）"@)
        },
        c.phase is Turn && (interrupted || turn is Err) ==> {
            let m = chat::stepped(c, chat::EventV::Turn { turn, interrupted, cost }, now);
            &&& m.chat.store.sessions[c.at].messages == c.snapshot
            &&& c.store.sessions[c.at].trace.len() > 0 ==> m.chat.store.sessions[c.at].trace
                == c.store.sessions[c.at].trace.drop_last()
            &&& interrupted ==> m.chat.phase == chat::PhaseV::Settle(chat::EndingV::Broken)
            &&& !interrupted ==> m.chat.phase == chat::PhaseV::Settle(
                chat::EndingV::Failed { error: agent::llm_text(turn->Err_0) },
            )
        },
{
    super::laws::lemma_filled(c, 0);
}

/// A write that awaits the user's word answers its call with that, and with the summary.
pub proof fn law_what_awaits_is_told_to_the_model(
    c: chat::ChatV,
    tool: Seq<char>,
    args: json::Tree,
    summary: Seq<char>,
    elapsed: u64,
    now: u64,
)
    requires
        chat::wf(c),
        c.phase is Tool,
        !summary.contains('"'),
    ensures
        ({
            let m = chat::stepped(
                c,
                chat::EventV::Outcome {
                    result: Ok(plan::OutV::Confirm { tool, args, summary }),
                    elapsed,
                },
                now,
            );
            let n = c.store.sessions[c.at].messages.len() as int;
            m.chat.store.sessions[c.at].messages[n].content == Some(
                "{\"status\":\"awaiting_confirmation\",\"summary\":\""@ + summary + "\"}"@,
            )
        }),
{
    assert(text::replaced(summary, '"', '\'') =~= summary) by {
        assert forall|i: int| 0 <= i < summary.len() implies summary[i] != '"' by {
            if summary[i] == '"' {
                assert(summary.contains('"'));
            }
        }
    }
}

/// However a run comes to its end, what it cost is added to what the conversation and what
/// all of them cost, and held against the budget.
pub proof fn law_what_a_run_cost_is_reckoned(c: chat::ChatV, e: chat::EventV, now: u64)
    requires
        chat::wf(c),
        chat::takes(c, e),
        !(c.phase is Settle),
    ensures
        ({
            let m = chat::stepped(c, e, now);
            m.chat.phase is Settle ==> m.out.request == (chat::RequestV::Settle {
                session_cost: c.store.sessions[c.at].cost_usd,
                total_cost: c.store.totals_cost_usd,
                run_cost: m.chat.run_cost,
                budget: c.cfg.budget_usd@,
            })
        }),
{
    if c.phase is ToolPoll {
        lemma_filled_cost(c, 0);
    }
}

proof fn lemma_filled_cost(c: chat::ChatV, j: int)
    requires
        0 <= c.at < c.store.sessions.len(),
        0 <= j,
    ensures
        chat::filled(c, j).at == c.at,
        chat::filled(c, j).cfg == c.cfg,
        chat::filled(c, j).run_cost == c.run_cost,
        chat::filled(c, j).store.totals_cost_usd == c.store.totals_cost_usd,
        chat::filled(c, j).store.sessions.len() == c.store.sessions.len(),
        chat::filled(c, j).store.sessions[c.at].cost_usd == c.store.sessions[c.at].cost_usd,
    decreases c.calls.len() - j,
{
    if j < c.calls.len() {
        if chat::is_answered(c, c.calls[j].id) {
            lemma_filled_cost(c, j + 1);
        } else {
            let d = chat::said(c, session::tool_msg(c.calls[j].id, "（用户打断，未执行）"@));
            lemma_filled_cost(d, j + 1);
        }
    }
}

/// Where no conversation is active, the run opens one, which is empty, and goes on in it.
pub proof fn law_a_run_opens_a_conversation(
    cfg: Config,
    store: session::StoreV,
    input: Seq<char>,
    clock: Seq<char>,
    stamp: Stamp,
    now: u64,
)
    requires
        store.seq < u64::MAX,
        store.sessions.len() < 24,
        store.active.len() == 0 || forall|k: int|
            0 <= k < store.sessions.len() ==> (#[trigger] store.sessions[k]).id != store.active,
        forall|k: int|
            0 <= k < store.sessions.len() ==> (#[trigger] store.sessions[k]).id
                != session::session_id(stamp.millis, store.seq + 1),
    ensures
        ({
            let m = chat::begun(cfg, store, input, clock, stamp, now);
            let n = store.sessions.len() as int;
            &&& m.chat.at == n
            &&& m.chat.store.sessions.len() == n + 1
            &&& m.chat.store.sessions.take(n) == store.sessions
            &&& m.chat.store.sessions[n].id == m.chat.store.active
            &&& m.chat.store.sessions[n].messages.len() == 0
            &&& m.chat.store.sessions[n].pending is None
            &&& m.chat.phase == chat::PhaseV::Budget(input)
        }),
{
    let n = store.sessions.len() as int;
    if store.active.len() > 0 {
        session::laws::law_a_conversation_is_found_by_its_name(store.sessions, store.active, n);
    }
    let opened = session::opened(store, "新会话"@, stamp);
    let new = session::fresh_session("新会话"@, stamp, store.seq + 1);
    assert(opened.sessions == store.sessions.push(new));
    assert forall|k: int| 0 <= k < n implies (#[trigger] opened.sessions[k]).id != opened.active by {
        assert(opened.sessions[k] == store.sessions[k]);
    }
    session::laws::law_a_conversation_is_found_by_its_name(opened.sessions, opened.active, n);
}

/// Where the user breaks off among tools whose calls have names of their own, each call
/// that has no result yet gets one, in order, that says that it was not run; the results
/// that are there stay.
pub proof fn law_what_was_not_run_is_marked(c: chat::ChatV, now: u64)
    requires
        chat::wf(c),
        c.phase is ToolPoll,
        forall|i: int, j: int|
            0 <= i < j < c.calls.len() ==> (#[trigger] c.calls[i]).id != (#[trigger] c.calls[j]).id,
    ensures
        ({
            let m = chat::stepped(c, chat::EventV::Interrupted(true), now);
            let before = c.store.sessions[c.at].messages;
            let after = m.chat.store.sessions[c.at].messages;
            let n = before.len() as int;
            &&& after.len() == n + (c.calls.len() - c.next) + 1
            &&& after.take(n) == before
            &&& forall|k: int|
                c.next <= k < c.calls.len() ==> {
                    let x = #[trigger] after[n + k - c.next];
                    &&& x.role == "tool"@
                    &&& x.tool_call_id == Some(c.calls[k].id)
                    &&& x.content == Some("（用户打断，未执行）"@)
                }
        }),
{
    lemma_answered_stay(c, 0);
    lemma_rest_marked(c, c.next);
    let before = c.store.sessions[c.at].messages;
    let f = chat::filled(c, 0).store.sessions[c.at].messages;
    let after = chat::stepped(
        c,
        chat::EventV::Interrupted(true),
        now,
    ).chat.store.sessions[c.at].messages;
    super::laws::lemma_filled(c, 0);
    let n = before.len() as int;
    assert(after =~= f.push(after.last()));
    assert(after.take(n) =~= before);
    assert forall|k: int| c.next <= k < c.calls.len() implies {
        let x = #[trigger] after[n + k - c.next];
        &&& x.role == "tool"@
        &&& x.tool_call_id == Some(c.calls[k].id)
        &&& x.content == Some("（用户打断，未执行）"@)
    } by {
        assert(after[n + k - c.next] == f[n + k - c.next]);
    }
}

proof fn lemma_answered_stay(c: chat::ChatV, j: int)
    requires
        0 <= j <= c.next <= c.calls.len(),
    ensures
        chat::filled(c, j) == chat::filled(c, c.next),
    decreases c.next - j,
{
    if j < c.next {
        assert(c.calls[j].id == c.calls[j].id);
        assert(chat::is_answered(c, c.calls[j].id));
        lemma_answered_stay(c, j + 1);
    }
}

proof fn lemma_rest_marked(c: chat::ChatV, j: int)
    requires
        0 <= c.at < c.store.sessions.len(),
        0 <= c.next <= j <= c.calls.len(),
        forall|i: int, j: int|
            0 <= i < j < c.calls.len() ==> (#[trigger] c.calls[i]).id != (#[trigger] c.calls[j]).id,
    ensures
        ({
            let before = c.store.sessions[c.at].messages;
            let after = chat::filled(c, j).store.sessions[c.at].messages;
            let n = before.len() as int;
            &&& after.len() == n + (c.calls.len() - j)
            &&& after.take(n) == before
            &&& forall|k: int|
                j <= k < c.calls.len() ==> {
                    let x = #[trigger] after[n + k - j];
                    &&& x.role == "tool"@
                    &&& x.tool_call_id == Some(c.calls[k].id)
                    &&& x.content == Some("（用户打断，未执行）"@)
                }
        }),
    decreases c.calls.len() - j,
{
    let before = c.store.sessions[c.at].messages;
    let n = before.len() as int;
    if j < c.calls.len() {
        let mark = session::tool_msg(c.calls[j].id, "（用户打断，未执行）"@);
        let d = chat::said(c, mark);
        assert(!chat::is_answered(c, c.calls[j].id));
        lemma_rest_marked(d, j + 1);
        let after = chat::filled(d, j + 1).store.sessions[c.at].messages;
        assert(d.store.sessions[c.at].messages == before.push(mark));
        assert(after.take(n + 1)[n] == mark);
        assert(after.take(n) =~= before) by {
            assert(after.take(n + 1) == before.push(mark));
            assert(after.take(n) =~= after.take(n + 1).take(n));
            assert(before.push(mark).take(n) =~= before);
        }
        assert forall|k: int| j <= k < c.calls.len() implies {
            let x = #[trigger] after[n + k - j];
            &&& x.role == "tool"@
            &&& x.tool_call_id == Some(c.calls[k].id)
            &&& x.content == Some("（用户打断，未执行）"@)
        } by {
            if k > j {
                assert(after[n + 1 + k - (j + 1)] == after[n + k - j]);
            } else {
                assert(after[n] == after.take(n + 1)[n]);
            }
        }
    } else {
        assert(before.take(n) =~= before);
    }
}

} // verus!
