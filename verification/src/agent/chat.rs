//! A run of the conversation, as a machine: what happened goes in, and what is to be
//! shown, saved and done next comes out. Calling the model, running the tools and
//! reckoning with money is done by whoever runs the machine.

use crate::agent;
use crate::config::Config;
use crate::json;
use crate::json::{Json, Num};
use crate::llm;
use crate::llm::{ToolCall, Turn};
use crate::session;
use crate::session::{Msg, PendingAction, Stamp, Store};
use crate::text;
use crate::tools;
use crate::tools::defs;
use crate::tools::plan;
use crate::tools::ToolOut;
use crate::usage;
use crate::usage::Usage;
use vstd::prelude::*;

verus! {

/// What is to be shown or saved before what is to be done next.
#[derive(Debug)]
pub enum Effect {
    /// A notification of progress, with these parameters.
    Progress(Json),
    Save(Store),
}

pub enum EffectV {
    Progress(json::Tree),
    Save(session::StoreV),
}

impl View for Effect {
    type V = EffectV;

    open spec fn view(&self) -> EffectV {
        match self {
            Effect::Progress(v) => EffectV::Progress(v@),
            Effect::Save(s) => EffectV::Save(s@),
        }
    }
}

pub open spec fn effects_of(v: Seq<Effect>) -> Seq<EffectV> {
    v.map_values(|e: Effect| e@)
}

pub open spec fn no_effects() -> Seq<EffectV> {
    Seq::empty()
}

/// What is to be done next.
#[derive(Debug)]
#[allow(inconsistent_fields)]
pub enum Request {
    /// Run a tool.
    Execute { tool: String, args: Json, confirmed: bool },
    /// Hold what was spent against the budget.
    Budget { spent: Num, budget: Num },
    /// Ask whether the user wants to break off.
    Poll,
    /// Have the model take a turn; `count` messages are sent.
    Ask { body: Json, count: usize },
    /// Add what the run cost to what the conversation, and what all of them, cost.
    Settle { session_cost: Num, total_cost: Num, run_cost: Num, budget: Num },
    /// The run is over.
    Reply(Json),
}

#[allow(inconsistent_fields)]
pub enum RequestV {
    Execute { tool: Seq<char>, args: json::Tree, confirmed: bool },
    Budget { spent: json::Tree, budget: json::Tree },
    Poll,
    Ask { body: json::Tree, count: nat },
    Settle {
        session_cost: json::Tree,
        total_cost: json::Tree,
        run_cost: json::Tree,
        budget: json::Tree,
    },
    Reply(json::Tree),
}

impl View for Request {
    type V = RequestV;

    open spec fn view(&self) -> RequestV {
        match self {
            Request::Execute { tool, args, confirmed } => RequestV::Execute {
                tool: tool@,
                args: args@,
                confirmed: *confirmed,
            },
            Request::Budget { spent, budget } => RequestV::Budget { spent: spent@, budget: budget@ },
            Request::Poll => RequestV::Poll,
            Request::Ask { body, count } => RequestV::Ask { body: body@, count: *count as nat },
            Request::Settle { session_cost, total_cost, run_cost, budget } => RequestV::Settle {
                session_cost: session_cost@,
                total_cost: total_cost@,
                run_cost: run_cost@,
                budget: budget@,
            },
            Request::Reply(v) => RequestV::Reply(v@),
        }
    }
}

/// What comes out of the machine.
#[derive(Debug)]
pub struct Step {
    pub effects: Vec<Effect>,
    pub request: Request,
}

pub struct StepV {
    pub effects: Seq<EffectV>,
    pub request: RequestV,
}

impl View for Step {
    type V = StepV;

    open spec fn view(&self) -> StepV {
        StepV { effects: effects_of(self.effects@), request: self.request@ }
    }
}

/// What happened.
#[derive(Debug)]
#[allow(inconsistent_fields)]
pub enum Event {
    /// What a tool came to, after so many milliseconds.
    Outcome { result: Result<ToolOut, String>, elapsed: u64 },
    /// Whether the budget is used up, and the two sums as texts.
    Budget { exhausted: bool, spent: String, budget: String },
    /// Whether the user wants to break off.
    Interrupted(bool),
    /// The turn of the model, or why there is none; whether the user wants to break
    /// off; and what the run has cost with this turn.
    Turn { turn: Result<Turn, String>, interrupted: bool, cost: Num },
    /// The costs with those of the run, what is left of the budget, and what was spent
    /// as a text.
    Settled { session_cost: Num, total_cost: Num, left: Num, spent: String },
}

#[allow(inconsistent_fields)]
pub enum EventV {
    Outcome { result: plan::Outcome, elapsed: u64 },
    Budget { exhausted: bool, spent: Seq<char>, budget: Seq<char> },
    Interrupted(bool),
    Turn { turn: Result<llm::TurnV, Seq<char>>, interrupted: bool, cost: json::Tree },
    Settled {
        session_cost: json::Tree,
        total_cost: json::Tree,
        left: json::Tree,
        spent: Seq<char>,
    },
}

pub open spec fn turn_of(r: Result<Turn, String>) -> Result<llm::TurnV, Seq<char>> {
    match r {
        Ok(t) => Ok(t@),
        Err(e) => Err(e@),
    }
}

impl View for Event {
    type V = EventV;

    open spec fn view(&self) -> EventV {
        match self {
            Event::Outcome { result, elapsed } => EventV::Outcome {
                result: tools::outcome(*result),
                elapsed: *elapsed,
            },
            Event::Budget { exhausted, spent, budget } => EventV::Budget {
                exhausted: *exhausted,
                spent: spent@,
                budget: budget@,
            },
            Event::Interrupted(b) => EventV::Interrupted(*b),
            Event::Turn { turn, interrupted, cost } => EventV::Turn {
                turn: turn_of(*turn),
                interrupted: *interrupted,
                cost: cost@,
            },
            Event::Settled { session_cost, total_cost, left, spent } => EventV::Settled {
                session_cost: session_cost@,
                total_cost: total_cost@,
                left: left@,
                spent: spent@,
            },
        }
    }
}

/// How a run ends.
#[derive(Debug)]
#[allow(inconsistent_fields)]
pub enum Ending {
    /// With an answer.
    Answer { answer: String, interrupted: bool },
    /// With something for the user to confirm.
    Confirm { answer: String, summary: String },
    /// The user broke off while the model was at it.
    Broken,
    /// The model failed.
    Failed { error: String },
}

#[allow(inconsistent_fields)]
pub enum EndingV {
    Answer { answer: Seq<char>, interrupted: bool },
    Confirm { answer: Seq<char>, summary: Seq<char> },
    Broken,
    Failed { error: Seq<char> },
}

impl View for Ending {
    type V = EndingV;

    open spec fn view(&self) -> EndingV {
        match self {
            Ending::Answer { answer, interrupted } => EndingV::Answer {
                answer: answer@,
                interrupted: *interrupted,
            },
            Ending::Confirm { answer, summary } => EndingV::Confirm {
                answer: answer@,
                summary: summary@,
            },
            Ending::Broken => EndingV::Broken,
            Ending::Failed { error } => EndingV::Failed { error: error@ },
        }
    }
}

/// What the machine waits for.
#[derive(Debug)]
pub enum Phase {
    /// The outcome of the write that the user has confirmed.
    Confirmed(PendingAction),
    /// The word on the budget; the user's input is kept.
    Budget(String),
    /// The word on breaking off, before the next turn.
    Poll,
    /// The turn of the model.
    Turn,
    /// The word on breaking off, before the next tool.
    ToolPoll,
    /// The outcome of the tool.
    Tool,
    /// The costs.
    Settle(Ending),
    /// Nothing: the run is over.
    Done,
}

pub enum PhaseV {
    Confirmed(session::PendingV),
    Budget(Seq<char>),
    Poll,
    Turn,
    ToolPoll,
    Tool,
    Settle(EndingV),
    Done,
}

impl View for Phase {
    type V = PhaseV;

    open spec fn view(&self) -> PhaseV {
        match self {
            Phase::Confirmed(p) => PhaseV::Confirmed(p@),
            Phase::Budget(s) => PhaseV::Budget(s@),
            Phase::Poll => PhaseV::Poll,
            Phase::Turn => PhaseV::Turn,
            Phase::ToolPoll => PhaseV::ToolPoll,
            Phase::Tool => PhaseV::Tool,
            Phase::Settle(e) => PhaseV::Settle(e@),
            Phase::Done => PhaseV::Done,
        }
    }
}

/// A run of the conversation.
#[derive(Debug)]
pub struct Chat {
    pub cfg: Config,
    pub store: Store,
    /// Where the active conversation stands.
    pub at: usize,
    pub system: Msg,
    /// The messages before the run.
    pub snapshot: Vec<Msg>,
    /// The turns that the model was asked for.
    pub step: u32,
    pub run_usage: Usage,
    pub run_cost: Num,
    /// The tool calls of the turn, and which one is next.
    pub calls: Vec<ToolCall>,
    pub next: usize,
    pub phase: Phase,
}

pub struct ChatV {
    pub cfg: Config,
    pub store: session::StoreV,
    pub at: int,
    pub system: session::MsgV,
    pub snapshot: Seq<session::MsgV>,
    pub step: int,
    pub run_usage: Usage,
    pub run_cost: json::Tree,
    pub calls: Seq<llm::CallV>,
    pub next: int,
    pub phase: PhaseV,
}

impl View for Chat {
    type V = ChatV;

    open spec fn view(&self) -> ChatV {
        ChatV {
            cfg: self.cfg,
            store: self.store@,
            at: self.at as int,
            system: self.system@,
            snapshot: session::msgs_of(self.snapshot@),
            step: self.step as int,
            run_usage: self.run_usage,
            run_cost: self.run_cost@,
            calls: llm::calls_of(self.calls@),
            next: self.next as int,
            phase: self.phase@,
        }
    }
}

/// The machine with what comes out of it.
pub struct Moved {
    pub chat: ChatV,
    pub out: StepV,
}

pub open spec fn moved(chat: ChatV, effects: Seq<EffectV>, request: RequestV) -> Moved {
    Moved { chat, out: StepV { effects, request } }
}

/// What every run keeps.
pub open spec fn wf(c: ChatV) -> bool {
    &&& 0 <= c.at < c.store.sessions.len()
    &&& 0 <= c.step <= c.cfg.max_steps
    &&& (c.phase is ToolPoll || c.phase is Tool) ==> 0 <= c.next < c.calls.len()
}

/// The conversation of the run.
pub open spec fn session(c: ChatV) -> session::SessionV {
    c.store.sessions[c.at]
}

pub open spec fn with_session(c: ChatV, s: session::SessionV) -> ChatV {
    ChatV {
        store: session::StoreV { sessions: c.store.sessions.update(c.at, s), ..c.store },
        ..c
    }
}

/// A message is added.
pub open spec fn said(c: ChatV, m: session::MsgV) -> ChatV {
    with_session(
        c,
        session::SessionV { messages: session(c).messages.push(m), ..session(c) },
    )
}

/// The trace gets a line.
pub open spec fn noted(c: ChatV, line: Seq<char>) -> ChatV {
    with_session(c, session::SessionV { trace: session(c).trace.push(line), ..session(c) })
}

pub open spec fn touched(c: ChatV, now: u64) -> ChatV {
    with_session(c, session::SessionV { updated_at: now, ..session(c) })
}

/// A write awaits the user's word, or none does.
pub open spec fn held(c: ChatV, p: Option<session::PendingV>) -> ChatV {
    with_session(c, session::SessionV { pending: p, ..session(c) })
}

pub open spec fn in_phase(c: ChatV, p: PhaseV) -> ChatV {
    ChatV { phase: p, ..c }
}

/// The messages are again those before the run.
pub open spec fn rolled_back(c: ChatV) -> ChatV {
    let s = session(c);
    with_session(
        c,
        session::SessionV {
            messages: c.snapshot,
            trace: if s.trace.len() > 0 {
                s.trace.drop_last()
            } else {
                s.trace
            },
            ..s
        },
    )
}

/// The parameters of a notification of progress.
pub open spec fn progress(kind: Seq<char>, t: Seq<char>, payload: Option<json::Tree>) -> EffectV {
    let base = json::no_fields().push(("text"@, json::Tree::Str(t))).push(
        ("kind"@, json::Tree::Str(kind)),
    );
    EffectV::Progress(
        json::Tree::Obj(
            match payload {
                Some(p) => base.push(("payload"@, p)),
                None => base,
            },
        ),
    )
}

/// Which of how many steps it is.
pub open spec fn of_steps(c: ChatV) -> json::Tree {
    json::Tree::Obj(
        json::no_fields().push(("step"@, json::Tree::Pos(c.step as u64))).push(
            ("total"@, json::Tree::Pos(c.cfg.max_steps as u64)),
        ),
    )
}

/// The words by which the user confirms.
pub open spec fn is_yes(t: Seq<char>) -> bool {
    t == "确认"@ || t == "确定"@ || t == "是"@ || t == "y"@ || t == "Y"@ || t == "yes"@ || t
        == "ok"@ || t == "OK"@ || t == "好"@ || t == "同意"@ || t == "执行"@
}

/// The words by which the user declines.
pub open spec fn is_no(t: Seq<char>) -> bool {
    t == "取消"@ || t == "不"@ || t == "n"@ || t == "N"@ || t == "no"@ || t == "算了"@ || t
        == "放弃"@ || t == "不了"@
}

/// A conversation without a title of its own is called by the input.
pub open spec fn titled(s: session::SessionV, input: Seq<char>) -> session::SessionV {
    if s.title == "新会话"@ || s.messages.len() == 0 {
        session::SessionV { title: text::first_chars(input, 24), ..s }
    } else {
        s
    }
}

/// The run at its start, in the active conversation.
pub open spec fn opening(
    cfg: Config,
    store: session::StoreV,
    input: Seq<char>,
    clock: Seq<char>,
    stamp: Stamp,
) -> ChatV {
    let s = session::activated(store, stamp);
    let at = session::find(s.sessions, s.active);
    ChatV {
        cfg,
        store: session::StoreV {
            sessions: s.sessions.update(at, titled(s.sessions[at], input)),
            ..s
        },
        at,
        system: session::plain_msg("system"@, agent::prompt(clock, cfg)),
        snapshot: Seq::empty(),
        step: 0,
        run_usage: usage::zero(),
        run_cost: session::no_cost(),
        calls: Seq::empty(),
        next: 0,
        phase: PhaseV::Done,
    }
}

pub open spec fn declined_reply(c: ChatV, answer: Seq<char>) -> json::Tree {
    json::Tree::Obj(
        json::no_fields().push(("type"@, json::Tree::Str("chat"@))).push(
            ("ok"@, json::Tree::Bool(true)),
        ).push(("answer"@, json::Tree::Str(answer))).push(
            ("sessionId"@, json::Tree::Str(c.store.active)),
        ).push(("confirm"@, json::Tree::Null)),
    )
}

/// The user declines: the write is dropped, and nothing is run.
pub open spec fn declined(c: ChatV, p: session::PendingV, now: u64) -> Moved {
    let answer = "已取消："@ + p.summary;
    let d = touched(
        said(
            said(held(c, None), session::plain_msg("user"@, "取消"@)),
            session::plain_msg("assistant"@, answer),
        ),
        now,
    );
    moved(
        in_phase(d, PhaseV::Done),
        no_effects().push(EffectV::Save(d.store)),
        RequestV::Reply(declined_reply(d, answer)),
    )
}

/// The user confirms: the write is run, as it was shown.
pub open spec fn confirmed(c: ChatV, p: session::PendingV) -> Moved {
    moved(
        in_phase(c, PhaseV::Confirmed(p)),
        no_effects().push(progress("tool"@, "执行已确认："@ + p.summary, None)),
        RequestV::Execute { tool: p.tool, args: p.args, confirmed: true },
    )
}

pub open spec fn at_budget(c: ChatV, input: Seq<char>) -> Moved {
    moved(
        in_phase(c, PhaseV::Budget(input)),
        no_effects(),
        RequestV::Budget { spent: c.store.totals_cost_usd, budget: c.cfg.budget_usd@ },
    )
}

/// A run begins. A write that awaits the user's word is run where they confirm and
/// dropped where they decline; it is forgotten where they say something else.
pub open spec fn begun(
    cfg: Config,
    store: session::StoreV,
    input: Seq<char>,
    clock: Seq<char>,
    stamp: Stamp,
    now: u64,
) -> Moved {
    let c = opening(cfg, store, input, clock, stamp);
    let word = text::trimmed(input);
    match session(c).pending {
        Some(p) => if is_no(word) {
            declined(c, p, now)
        } else if is_yes(word) {
            confirmed(c, p)
        } else {
            at_budget(held(c, None), input)
        },
        None => at_budget(c, input),
    }
}

pub open spec fn over_budget(spent: Seq<char>, budget: Seq<char>) -> Seq<char> {
    "已达 Token 预算上限（已用 "@ + spent + " $ / 预算 "@ + budget
        + " $）。可在插件设置里调高「预算」。"@
}

/// The last `MAX_TRACE` lines of a trace.
pub open spec fn capped(trace: Seq<Seq<char>>) -> Seq<Seq<char>> {
    if trace.len() > session::MAX_TRACE {
        trace.skip(trace.len() - session::MAX_TRACE)
    } else {
        trace
    }
}

/// The user's input is taken into the conversation.
pub open spec fn entered(c: ChatV, input: Seq<char>) -> ChatV {
    let kept = ChatV { snapshot: session(c).messages, ..c };
    let d = noted(
        said(kept, session::plain_msg("user"@, input)),
        "👤 "@ + text::first_chars(input, 40),
    );
    with_session(d, session::SessionV { trace: capped(session(d).trace), ..session(d) })
}

pub open spec fn on_budget(
    c: ChatV,
    input: Seq<char>,
    exhausted: bool,
    spent: Seq<char>,
    budget: Seq<char>,
) -> Moved {
    if exhausted {
        moved(
            in_phase(c, PhaseV::Done),
            no_effects(),
            RequestV::Reply(agent::failure("chat"@, over_budget(spent, budget))),
        )
    } else {
        moved(in_phase(entered(c, input), PhaseV::Poll), no_effects(), RequestV::Poll)
    }
}

/// What is said of a confirmed write, and whether it was done.
pub open spec fn executed(p: session::PendingV, result: plan::Outcome) -> (Seq<char>, bool) {
    match result {
        Ok(plan::OutV::Text(t)) => (
            "✅ 已执行："@ + p.summary + "\n"@ + agent::humane(t, json::json_read(t)),
            true,
        ),
        Ok(plan::OutV::Confirm { tool, args, summary }) => ("已处理："@ + p.summary, true),
        Err(e) => ("❌ 执行失败："@ + e + "\n操作未生效，可重试或换一个目标。"@, false),
    }
}

pub open spec fn executed_reply(c: ChatV, answer: Seq<char>, ok: bool) -> json::Tree {
    json::Tree::Obj(
        json::no_fields().push(("type"@, json::Tree::Str("chat"@))).push(
            ("ok"@, json::Tree::Bool(true)),
        ).push(("answer"@, json::Tree::Str(answer))).push(
            ("sessionId"@, json::Tree::Str(c.store.active)),
        ).push(("executed"@, json::Tree::Bool(ok))).push(("confirm"@, json::Tree::Null)),
    )
}

/// The confirmed write was run.
pub open spec fn on_executed(
    c: ChatV,
    p: session::PendingV,
    result: plan::Outcome,
    now: u64,
) -> Moved {
    let (answer, ok) = executed(p, result);
    let d = touched(
        noted(
            said(
                said(held(c, None), session::plain_msg("user"@, "确认"@)),
                session::plain_msg("assistant"@, answer),
            ),
            "✔ "@ + p.summary,
        ),
        now,
    );
    moved(
        in_phase(d, PhaseV::Done),
        no_effects().push(EffectV::Save(d.store)),
        RequestV::Reply(executed_reply(d, answer, ok)),
    )
}

/// The run comes to its end; what it cost is to be reckoned.
pub open spec fn settling(c: ChatV, effects: Seq<EffectV>, ending: EndingV) -> Moved {
    moved(
        in_phase(c, PhaseV::Settle(ending)),
        effects,
        RequestV::Settle {
            session_cost: session(c).cost_usd,
            total_cost: c.store.totals_cost_usd,
            run_cost: c.run_cost,
            budget: c.cfg.budget_usd@,
        },
    )
}

/// What the model is sent: the conversation after the system's message, trimmed to
/// what it can take.
pub open spec fn history(c: ChatV) -> Seq<session::MsgV> {
    session::trimmed_history(
        Seq::<session::MsgV>::empty().push(c.system) + session(c).messages,
        c.cfg.max_context as nat,
    )
}

/// The model is asked for the next turn, unless the user breaks off or the steps are
/// used up.
pub open spec fn on_poll(c: ChatV, interrupted: bool) -> Moved {
    if interrupted {
        settling(
            c,
            no_effects(),
            EndingV::Answer { answer: "（已打断）"@, interrupted: true },
        )
    } else if c.step >= c.cfg.max_steps {
        settling(
            c,
            no_effects(),
            EndingV::Answer {
                answer: "已达到单次任务的工具调用步数上限，任务中止。你可以让我继续或换个问法。"@,
                interrupted: false,
            },
        )
    } else {
        let d = in_phase(ChatV { step: c.step + 1, ..c }, PhaseV::Turn);
        moved(
            d,
            no_effects().push(
                progress(
                    "notice"@,
                    "思考中…（第 "@ + text::decimal(d.step as nat) + " 步）"@,
                    Some(of_steps(d)),
                ),
            ),
            RequestV::Ask {
                body: llm::body_tree(
                    d.cfg.model@,
                    d.cfg.stream,
                    history(d),
                    defs::functions(defs::tools()),
                ),
                count: history(d).len(),
            },
        )
    }
}

/// What a turn used, as far as it says.
pub open spec fn turn_usage(turn: Result<llm::TurnV, Seq<char>>) -> Option<Usage> {
    match turn {
        Ok(t) => match t.usage {
            Some(u) => Some(
                Usage { prompt: u.prompt_tokens, completion: u.completion_tokens, calls: 1 },
            ),
            None => None,
        },
        Err(_) => None,
    }
}

/// What a turn used is added to what the run used.
pub open spec fn counted(
    c: ChatV,
    turn: Result<llm::TurnV, Seq<char>>,
    cost: json::Tree,
) -> ChatV {
    match turn_usage(turn) {
        Some(u) => ChatV { run_usage: usage::sum(c.run_usage, u), run_cost: cost, ..c },
        None => c,
    }
}

/// The answer of a turn without tool calls.
pub open spec fn answer_of(t: llm::TurnV) -> Seq<char> {
    if text::trimmed(t.content).len() == 0 && t.reasoning.len() > 0 {
        "（模型只输出了思考过程，没有给出最终回答，可重试或换模型。）"@
    } else {
        t.content
    }
}

/// A tool call, as it stands in a message.
pub open spec fn call_tree(c: llm::CallV) -> json::Tree {
    json::Tree::Obj(
        json::no_fields().push(("id"@, json::Tree::Str(c.id))).push(
            ("type"@, json::Tree::Str("function"@)),
        ).push(
            (
                "function"@,
                json::Tree::Obj(
                    json::no_fields().push(("name"@, json::Tree::Str(c.name))).push(
                        ("arguments"@, json::Tree::Str(c.arguments)),
                    ),
                ),
            ),
        ),
    )
}

pub open spec fn call_trees(calls: Seq<llm::CallV>) -> Seq<json::Tree> {
    calls.map_values(|c: llm::CallV| call_tree(c))
}

pub open spec fn unless_empty(s: Seq<char>) -> Option<Seq<char>> {
    if s.len() == 0 {
        None
    } else {
        Some(s)
    }
}

/// The message of a turn with tool calls.
pub open spec fn call_msg(t: llm::TurnV) -> session::MsgV {
    session::MsgV {
        role: "assistant"@,
        content: unless_empty(t.content),
        reasoning: unless_empty(t.reasoning),
        tool_calls: Some(json::Tree::Arr(call_trees(t.tool_calls))),
        tool_call_id: None,
        name: None,
    }
}

pub open spec fn logged(t: Seq<char>) -> EffectV {
    progress("log"@, t, None)
}

/// The model took its turn. Where the user breaks off, or the model failed, the
/// conversation is again what it was before the run.
pub open spec fn on_turn(
    c: ChatV,
    turn: Result<llm::TurnV, Seq<char>>,
    interrupted: bool,
    cost: json::Tree,
    now: u64,
) -> Moved {
    let d = counted(c, turn, cost);
    if interrupted {
        settling(rolled_back(d), no_effects(), EndingV::Broken)
    } else {
        match turn {
            Err(e) => settling(
                rolled_back(d),
                no_effects(),
                EndingV::Failed { error: agent::llm_text(e) },
            ),
            Ok(t) => if t.tool_calls.len() == 0 {
                let answer = answer_of(t);
                let f = touched(said(d, session::plain_msg("assistant"@, answer)), now);
                settling(
                    f,
                    no_effects().push(logged("💾 会话写盘…"@)).push(EffectV::Save(f.store)).push(
                        logged("💾 写盘完成"@),
                    ),
                    EndingV::Answer { answer, interrupted: false },
                )
            } else {
                let f = ChatV { calls: t.tool_calls, next: 0, ..said(d, call_msg(t)) };
                moved(in_phase(f, PhaseV::ToolPoll), no_effects(), RequestV::Poll)
            },
        }
    }
}

/// A call with that id has its result.
pub open spec fn is_answered(c: ChatV, id: Seq<char>) -> bool {
    exists|k: int| 0 <= k < c.next && (#[trigger] c.calls[k]).id == id
}

/// The calls from `j` on that have no result get a placeholder.
pub open spec fn filled(c: ChatV, j: int) -> ChatV
    decreases c.calls.len() - j,
{
    if j < 0 || j >= c.calls.len() {
        c
    } else if is_answered(c, c.calls[j].id) {
        filled(c, j + 1)
    } else {
        filled(
            said(c, session::tool_msg(c.calls[j].id, "（用户打断，未执行）"@)),
            j + 1,
        )
    }
}

/// The arguments of a call: the JSON that they are, or an object that holds the text.
pub open spec fn args_of(arguments: Seq<char>) -> json::Tree {
    match json::json_read(arguments) {
        Some(v) => v,
        None => json::Tree::Obj(json::no_fields().push(("_raw"@, json::Tree::Str(arguments)))),
    }
}

pub open spec fn call_note(c: ChatV, args: json::Tree) -> Seq<char> {
    "→ 工具 "@ + c.calls[c.next].name + " · 步骤 "@ + text::decimal(c.step as nat) + " · 参数 "@
        + text::first_chars(json::json_text(args), 160)
}

/// The next tool is run, unless the user breaks off: then the calls that have no
/// result get a placeholder.
pub open spec fn on_tool_poll(c: ChatV, interrupted: bool, now: u64) -> Moved {
    if interrupted {
        let d = touched(filled(c, 0), now);
        let answer = "（已打断，本轮工具调用已中止）"@;
        settling(
            said(d, session::plain_msg("assistant"@, answer)),
            no_effects().push(EffectV::Save(d.store)),
            EndingV::Answer { answer, interrupted: true },
        )
    } else {
        let args = args_of(c.calls[c.next].arguments);
        moved(
            in_phase(c, PhaseV::Tool),
            no_effects().push(
                progress("tool"@, "🔧 "@ + c.calls[c.next].name, Some(of_steps(c))),
            ).push(logged(call_note(c, args))),
            RequestV::Execute { tool: c.calls[c.next].name, args, confirmed: false },
        )
    }
}

/// What the model is told of a write that awaits the user's word.
pub open spec fn awaiting(summary: Seq<char>) -> Seq<char> {
    "{\"status\":\"awaiting_confirmation\",\"summary\":\""@ + text::replaced(summary, '"', '\'')
        + "\"}"@
}

pub open spec fn confirm_answer(summary: Seq<char>) -> Seq<char> {
    "请确认以下操作（回复「确认」执行，回复「取消」放弃）：\n"@ + summary
}

/// The tool after this one is up, or the next turn where there is none.
pub open spec fn go_on(c: ChatV, effects: Seq<EffectV>, now: u64) -> Moved {
    let d = ChatV { next: c.next + 1, ..c };
    if d.next < d.calls.len() {
        moved(in_phase(d, PhaseV::ToolPoll), effects, RequestV::Poll)
    } else {
        let f = touched(d, now);
        moved(in_phase(f, PhaseV::Poll), effects.push(EffectV::Save(f.store)), RequestV::Poll)
    }
}

/// A tool was run; the call gets its result. A write that needs the user's word ends
/// the run with the question.
pub open spec fn on_tool(c: ChatV, result: plan::Outcome, elapsed: u64, now: u64) -> Moved {
    let call = c.calls[c.next];
    let effects = no_effects().push(
        logged(
            "← 工具 "@ + call.name + " 完成 · "@ + text::decimal(elapsed as nat) + "ms"@,
        ),
    );
    match result {
        Ok(plan::OutV::Text(t)) => go_on(
            noted(
                said(c, session::tool_msg(call.id, t)),
                "🔧 "@ + call.name + " → "@ + text::decimal(session::byte_len(t) as nat) + "B"@,
            ),
            effects.push(progress("tool"@, text::first_chars(t, 140), None)),
            now,
        ),
        Err(e) => {
            let line = "✗ "@ + call.name + "："@ + e;
            go_on(
                noted(said(c, session::tool_msg(call.id, "错误："@ + e)), line),
                effects.push(progress("tool"@, line, None)),
                now,
            )
        },
        Ok(plan::OutV::Confirm { tool, args, summary }) => {
            let d = touched(
                noted(
                    said(c, session::tool_msg(call.id, awaiting(summary))),
                    "⏸ "@ + summary + "（等确认）"@,
                ),
                now,
            );
            let answer = confirm_answer(summary);
            let f = touched(
                said(
                    held(d, Some(session::PendingV { tool, args, summary })),
                    session::plain_msg("assistant"@, answer),
                ),
                now,
            );
            settling(
                f,
                effects.push(EffectV::Save(d.store)),
                EndingV::Confirm { answer, summary },
            )
        },
    }
}

/// What the run used and cost is added to what the conversation, and what all of them,
/// used and cost.
pub open spec fn settled(c: ChatV, session_cost: json::Tree, total_cost: json::Tree) -> ChatV {
    let s = session(c);
    let d = with_session(
        c,
        session::SessionV {
            usage: usage::sum(s.usage, c.run_usage),
            cost_usd: session_cost,
            ..s
        },
    );
    ChatV {
        store: session::StoreV {
            totals: usage::sum(c.store.totals, c.run_usage),
            totals_cost_usd: total_cost,
            ..d.store
        },
        ..d
    }
}

pub open spec fn usage_progress(c: ChatV, left: json::Tree, spent: Seq<char>) -> EffectV {
    let s = session(c);
    progress(
        "usage"@,
        spent,
        Some(
            json::Tree::Obj(
                json::no_fields().push(("sessionCostUsd"@, s.cost_usd)).push(
                    ("totalCostUsd"@, c.store.totals_cost_usd),
                ).push(("budgetUsd"@, c.cfg.budget_usd@)).push(("budgetLeftUsd"@, left)).push(
                    ("sessionPrompt"@, json::Tree::Pos(s.usage.prompt)),
                ).push(("sessionCompletion"@, json::Tree::Pos(s.usage.completion))).push(
                    ("totalPrompt"@, json::Tree::Pos(c.store.totals.prompt)),
                ).push(("totalCompletion"@, json::Tree::Pos(c.store.totals.completion))).push(
                    ("totalCalls"@, json::Tree::Pos(c.store.totals.calls)),
                ),
            ),
        ),
    )
}

/// What the panel is told at the end of a run.
pub open spec fn final_reply(c: ChatV, ending: EndingV, left: json::Tree) -> json::Tree {
    let run = agent::run_payload(c.run_usage, c.run_cost);
    let mine = agent::session_payload(session(c));
    let total = agent::total_payload(c.store, c.cfg.budget_usd@, left);
    let base = json::no_fields().push(("type"@, json::Tree::Str("chat"@)));
    let id = json::Tree::Str(c.store.active);
    match ending {
        EndingV::Answer { answer, interrupted } => json::Tree::Obj(
            base.push(("ok"@, json::Tree::Bool(true))).push(
                ("answer"@, json::Tree::Str(answer)),
            ).push(("interrupted"@, json::Tree::Bool(interrupted))).push(("sessionId"@, id)).push(
                ("usage"@, run),
            ).push(("sessionUsage"@, mine)).push(("totalUsage"@, total)),
        ),
        EndingV::Confirm { answer, summary } => json::Tree::Obj(
            base.push(("ok"@, json::Tree::Bool(true))).push(
                ("answer"@, json::Tree::Str(answer)),
            ).push(("sessionId"@, id)).push(
                (
                    "confirm"@,
                    json::Tree::Obj(
                        json::no_fields().push(("summary"@, json::Tree::Str(summary))),
                    ),
                ),
            ).push(("usage"@, run)).push(("sessionUsage"@, mine)).push(("totalUsage"@, total)),
        ),
        EndingV::Broken => json::Tree::Obj(
            base.push(("ok"@, json::Tree::Bool(true))).push(
                ("answer"@, json::Tree::Str("（已打断）"@)),
            ).push(("interrupted"@, json::Tree::Bool(true))).push(("sessionId"@, id)),
        ),
        EndingV::Failed { error } => json::Tree::Obj(
            base.push(("ok"@, json::Tree::Bool(false))).push(
                ("error"@, json::Tree::Str(error)),
            ).push(("sessionId"@, id)),
        ),
    }
}

pub open spec fn on_settled(
    c: ChatV,
    ending: EndingV,
    session_cost: json::Tree,
    total_cost: json::Tree,
    left: json::Tree,
    spent: Seq<char>,
) -> Moved {
    let d = settled(c, session_cost, total_cost);
    let effects = no_effects().push(EffectV::Save(d.store));
    moved(
        in_phase(d, PhaseV::Done),
        if ending is Answer {
            effects.push(usage_progress(d, left, spent))
        } else {
            effects
        },
        RequestV::Reply(final_reply(d, ending, left)),
    )
}

/// The machine waits for such an event, and what is added up fits.
pub open spec fn takes(c: ChatV, e: EventV) -> bool {
    match (c.phase, e) {
        (PhaseV::Confirmed(_), EventV::Outcome { result, elapsed }) => true,
        (PhaseV::Budget(_), EventV::Budget { exhausted, spent, budget }) => true,
        (PhaseV::Poll, EventV::Interrupted(_)) => true,
        (PhaseV::Turn, EventV::Turn { turn, interrupted, cost }) => match turn_usage(turn) {
            Some(u) => usage::fit(c.run_usage, u),
            None => true,
        },
        (PhaseV::ToolPoll, EventV::Interrupted(_)) => true,
        (PhaseV::Tool, EventV::Outcome { result, elapsed }) => true,
        (
            PhaseV::Settle(_),
            EventV::Settled { session_cost, total_cost, left, spent },
        ) => usage::fit(session(c).usage, c.run_usage) && usage::fit(
            c.store.totals,
            c.run_usage,
        ),
        _ => false,
    }
}

/// What the machine makes of an event.
pub open spec fn stepped(c: ChatV, e: EventV, now: u64) -> Moved {
    match (c.phase, e) {
        (PhaseV::Confirmed(p), EventV::Outcome { result, elapsed }) => on_executed(
            c,
            p,
            result,
            now,
        ),
        (PhaseV::Budget(input), EventV::Budget { exhausted, spent, budget }) => on_budget(
            c,
            input,
            exhausted,
            spent,
            budget,
        ),
        (PhaseV::Poll, EventV::Interrupted(b)) => on_poll(c, b),
        (PhaseV::Turn, EventV::Turn { turn, interrupted, cost }) => on_turn(
            c,
            turn,
            interrupted,
            cost,
            now,
        ),
        (PhaseV::ToolPoll, EventV::Interrupted(b)) => on_tool_poll(c, b, now),
        (PhaseV::Tool, EventV::Outcome { result, elapsed }) => on_tool(c, result, elapsed, now),
        (
            PhaseV::Settle(ending),
            EventV::Settled { session_cost, total_cost, left, spent },
        ) => on_settled(c, ending, session_cost, total_cost, left, spent),
        _ => moved(c, no_effects(), RequestV::Poll),
    }
}

} // verus!
