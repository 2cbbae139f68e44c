//! How the machine of a run moves.

use crate::agent;
use crate::agent::chat;
use crate::agent::chat::{Chat, Effect, Ending, Event, Phase, Request, Step};
use crate::config::Config;
use crate::json;
use crate::json::{Arr, Json, Num, Rec};
use crate::llm;
use crate::llm::{ToolCall, Turn};
use crate::session;
use crate::session::{Msg, PendingAction, Session, Stamp, Store};
use crate::text;
use crate::tools;
use crate::tools::ToolOut;
use crate::usage;
use crate::usage::Usage;
use vstd::prelude::*;

verus! {

/// Effects under construction.
struct Effects {
    list: Vec<Effect>,
}

impl View for Effects {
    type V = Seq<chat::EffectV>;

    closed spec fn view(&self) -> Seq<chat::EffectV> {
        chat::effects_of(self.list@)
    }
}

impl Effects {
    fn none() -> (r: Effects)
        ensures
            r@ == chat::no_effects(),
    {
        let r = Effects { list: Vec::new() };
        assert(r@ =~= chat::no_effects());
        r
    }

    fn add(self, e: Effect) -> (r: Effects)
        ensures
            r@ == self@.push(e@),
    {
        let mut list = self.list;
        let ghost before = list@;
        list.push(e);
        assert(chat::effects_of(list@) =~= chat::effects_of(before).push(e@));
        Effects { list }
    }

    fn show(self, kind: &str, t: &str, payload: Option<Json>) -> (r: Effects)
        ensures
            r@ == self@.push(chat::progress(kind@, t@, json::option_tree(payload))),
    {
        let base = Rec::new().text("text", t).text("kind", kind);
        let params = match payload {
            Some(p) => base.with("payload", p).done(),
            None => base.done(),
        };
        self.add(Effect::Progress(params))
    }

    fn log(self, t: &str) -> (r: Effects)
        ensures
            r@ == self@.push(chat::logged(t@)),
    {
        self.show("log", t, None)
    }

    fn save(self, store: &Store) -> (r: Effects)
        ensures
            r@ == self@.push(chat::EffectV::Save(store@)),
    {
        self.add(Effect::Save(store.clone()))
    }

    fn then_do(self, request: Request) -> (r: Step)
        ensures
            r@ == (chat::StepV { effects: self@, request: request@ }),
    {
        Step { effects: self.list, request }
    }
}

fn push_message(s: &mut Session, m: Msg)
    ensures
        final(s)@ == (session::SessionV {
            messages: old(s)@.messages.push(m@),
            ..old(s)@
        }),
{
    let ghost before = s.messages@;
    s.messages.push(m);
    assert(session::msgs_of(s.messages@) =~= session::msgs_of(before).push(m@));
}

fn push_trace(s: &mut Session, line: String)
    ensures
        final(s)@ == (session::SessionV { trace: old(s)@.trace.push(line@), ..old(s)@ }),
{
    let ghost before = s.trace@;
    s.trace.push(line);
    assert(text::texts(s.trace@) =~= text::texts(before).push(line@));
}

fn cap_trace(s: &mut Session)
    ensures
        final(s)@ == (session::SessionV { trace: chat::capped(old(s)@.trace), ..old(s)@ }),
{
    let ghost all = s@.trace;
    assert(all.len() == s.trace@.len());
    if s.trace.len() > session::MAX_TRACE {
        let cut = s.trace.len() - session::MAX_TRACE;
        let mut kept: Vec<String> = Vec::new();
        let mut i: usize = cut;
        assert(text::texts(kept@) =~= all.subrange(cut as int, cut as int));
        while i < s.trace.len()
            invariant
                cut <= i <= s.trace@.len(),
                all == text::texts(s.trace@),
                text::texts(kept@) == all.subrange(cut as int, i as int),
                *s == *old(s),
            decreases s.trace@.len() - i,
        {
            let ghost before = kept@;
            let line = s.trace[i].clone();
            kept.push(line);
            assert(text::texts(kept@) =~= text::texts(before).push(all[i as int]));
            assert(all.subrange(cut as int, i + 1) =~= all.subrange(cut as int, i as int).push(
                all[i as int],
            ));
            i += 1;
        }
        s.trace = kept;
        assert(s@.trace =~= chat::capped(all));
    }
}

fn pop_trace(s: &mut Session)
    ensures
        final(s)@ == (session::SessionV {
            trace: if old(s)@.trace.len() > 0 {
                old(s)@.trace.drop_last()
            } else {
                old(s)@.trace
            },
            ..old(s)@
        }),
{
    let ghost before = s@.trace;
    assert(before.len() == s.trace@.len());
    let _ = s.trace.pop();
    assert(before.len() > 0 ==> s@.trace =~= before.drop_last());
    assert(before.len() == 0 ==> s@.trace =~= before);
}

/// A word by which the user confirms.
pub fn says_yes(t: &str) -> (r: bool)
    ensures
        r == chat::is_yes(t@),
{
    text::same(t, "确认") || text::same(t, "确定") || text::same(t, "是") || text::same(t, "y")
        || text::same(t, "Y") || text::same(t, "yes") || text::same(t, "ok") || text::same(t, "OK")
        || text::same(t, "好") || text::same(t, "同意") || text::same(t, "执行")
}

/// A word by which the user declines.
pub fn says_no(t: &str) -> (r: bool)
    ensures
        r == chat::is_no(t@),
{
    text::same(t, "取消") || text::same(t, "不") || text::same(t, "n") || text::same(t, "N")
        || text::same(t, "no") || text::same(t, "算了") || text::same(t, "放弃")
        || text::same(t, "不了")
}

impl Chat {
    fn say(&mut self, m: Msg)
        requires
            chat::wf(old(self)@),
        ensures
            final(self)@ == chat::said(old(self)@, m@),
    {
        let i = self.at;
        let ghost before = self.store.sessions@;
        push_message(&mut self.store.sessions[i], m);
        proof {
            session::lemma_sessions_update(before, i as int, self.store.sessions@[i as int]);
            assert(self.store.sessions@ =~= before.update(i as int, self.store.sessions@[i as int]));
        }
    }

    fn note(&mut self, line: String)
        requires
            chat::wf(old(self)@),
        ensures
            final(self)@ == chat::noted(old(self)@, line@),
    {
        let i = self.at;
        let ghost before = self.store.sessions@;
        push_trace(&mut self.store.sessions[i], line);
        proof {
            session::lemma_sessions_update(before, i as int, self.store.sessions@[i as int]);
            assert(self.store.sessions@ =~= before.update(i as int, self.store.sessions@[i as int]));
        }
    }

    fn touch(&mut self, now: u64)
        requires
            chat::wf(old(self)@),
        ensures
            final(self)@ == chat::touched(old(self)@, now),
    {
        let i = self.at;
        let ghost before = self.store.sessions@;
        self.store.sessions[i].updated_at = now;
        proof {
            session::lemma_sessions_update(before, i as int, self.store.sessions@[i as int]);
            assert(self.store.sessions@ =~= before.update(i as int, self.store.sessions@[i as int]));
        }
    }

    fn hold(&mut self, p: Option<PendingAction>)
        requires
            chat::wf(old(self)@),
        ensures
            final(self)@ == chat::held(old(self)@, session::pending_of(p)),
    {
        let i = self.at;
        let ghost before = self.store.sessions@;
        self.store.sessions[i].pending = p;
        proof {
            session::lemma_sessions_update(before, i as int, self.store.sessions@[i as int]);
            assert(self.store.sessions@ =~= before.update(i as int, self.store.sessions@[i as int]));
        }
    }

    fn roll_back(&mut self)
        requires
            chat::wf(old(self)@),
        ensures
            final(self)@ == chat::rolled_back(old(self)@),
    {
        let i = self.at;
        let ghost before = self.store.sessions@;
        let ghost was = self@;
        let mut s = self.store.sessions[i].clone();
        s.messages = session::copy_msgs(&self.snapshot);
        pop_trace(&mut s);
        self.store.sessions[i] = s;
        proof {
            session::lemma_sessions_update(before, i as int, s);
            assert(was.store.sessions[i as int] == before[i as int]@);
        }
    }
}

fn title(s: &mut Session, input: &str)
    ensures
        final(s)@ == chat::titled(old(s)@, input@),
{
    assert(s@.messages.len() == s.messages@.len());
    if text::same(s.title.as_str(), "新会话") || s.messages.len() == 0 {
        s.title = text::take_chars(input, 24);
    }
}

fn open(cfg: Config, store: Store, input: &str, clock: &str, stamp: Stamp) -> (r: Chat)
    requires
        store.seq < u64::MAX,
    ensures
        r@ == chat::opening(cfg, store@, input@, clock@, stamp),
        chat::wf(r@),
{
    let mut store = store;
    let at = store.activate(stamp);
    let ghost before = store.sessions@;
    title(&mut store.sessions[at], input);
    proof {
        session::lemma_sessions_update(before, at as int, store.sessions@[at as int]);
        assert(store.sessions@ =~= before.update(at as int, store.sessions@[at as int]));
    }
    let system = Msg::system(agent::system_prompt(clock, &cfg).as_str());
    let c = Chat {
        cfg,
        store,
        at,
        system,
        snapshot: Vec::new(),
        step: 0,
        run_usage: Usage::default(),
        run_cost: session::zero_cost(),
        calls: Vec::new(),
        next: 0,
        phase: Phase::Done,
    };
    assert(c@.snapshot =~= Seq::empty());
    assert(c@.calls =~= Seq::empty());
    c
}

impl Chat {
    fn ask_budget(&mut self, input: &str) -> (r: Step)
        requires
            chat::wf(old(self)@),
        ensures
            final(self)@ == chat::at_budget(old(self)@, input@).chat,
            r@ == chat::at_budget(old(self)@, input@).out,
            chat::wf(final(self)@),
    {
        self.phase = Phase::Budget(input.to_owned());
        Effects::none().then_do(
            Request::Budget {
                spent: self.store.totals_cost_usd.clone(),
                budget: self.cfg.budget_usd.clone(),
            },
        )
    }

    fn decline(&mut self, p: PendingAction, now: u64) -> (r: Step)
        requires
            chat::wf(old(self)@),
        ensures
            final(self)@ == chat::declined(old(self)@, p@, now).chat,
            r@ == chat::declined(old(self)@, p@, now).out,
            chat::wf(final(self)@),
    {
        let answer = text::cat("已取消：", p.summary.as_str());
        self.hold(None);
        self.say(Msg::user("取消"));
        self.say(Msg::assistant(answer.as_str()));
        self.touch(now);
        let reply = Rec::new().text("type", "chat").flag("ok", true).text(
            "answer",
            answer.as_str(),
        ).text("sessionId", self.store.active.as_str()).with("confirm", Json::Null).done();
        let out = Effects::none().save(&self.store).then_do(Request::Reply(reply));
        self.phase = Phase::Done;
        out
    }

    fn confirm(&mut self, p: PendingAction) -> (r: Step)
        requires
            chat::wf(old(self)@),
        ensures
            final(self)@ == chat::confirmed(old(self)@, p@).chat,
            r@ == chat::confirmed(old(self)@, p@).out,
            chat::wf(final(self)@),
    {
        let out = Effects::none().show(
            "tool",
            text::cat("执行已确认：", p.summary.as_str()).as_str(),
            None,
        ).then_do(
            Request::Execute { tool: p.tool.clone(), args: p.args.clone(), confirmed: true },
        );
        self.phase = Phase::Confirmed(p);
        out
    }

    /// Begins a run of the active conversation, or of a new one where there is none.
    /// `clock` is the time as a line, `now` the time.
    pub fn begin(
        cfg: Config,
        store: Store,
        input: &str,
        clock: &str,
        stamp: Stamp,
        now: u64,
    ) -> (r: (Chat, Step))
        requires
            store.seq < u64::MAX,
        ensures
            r.0@ == chat::begun(cfg, store@, input@, clock@, stamp, now).chat,
            r.1@ == chat::begun(cfg, store@, input@, clock@, stamp, now).out,
            chat::wf(r.0@),
    {
        let mut c = open(cfg, store, input, clock, stamp);
        let word = text::trim(input);
        assert(c@.store.sessions[c.at as int] == c.store.sessions@[c.at as int]@);
        let pending = match &c.store.sessions[c.at].pending {
            Some(p) => Some(p.clone()),
            None => None,
        };
        let out = match pending {
            Some(p) => if says_no(word.as_str()) {
                c.decline(p, now)
            } else if says_yes(word.as_str()) {
                c.confirm(p)
            } else {
                c.hold(None);
                c.ask_budget(input)
            },
            None => c.ask_budget(input),
        };
        (c, out)
    }

    fn enter(&mut self, input: &str)
        requires
            chat::wf(old(self)@),
        ensures
            final(self)@ == chat::entered(old(self)@, input@),
            chat::wf(final(self)@),
    {
        let i = self.at;
        assert(self@.store.sessions[i as int] == self.store.sessions@[i as int]@);
        self.snapshot = session::copy_msgs(&self.store.sessions[i].messages);
        self.say(Msg::user(input));
        self.note(text::cat("👤 ", text::take_chars(input, 40).as_str()));
        let ghost before = self.store.sessions@;
        assert(self@.store.sessions.len() == before.len());
        cap_trace(&mut self.store.sessions[i]);
        proof {
            session::lemma_sessions_update(before, i as int, self.store.sessions@[i as int]);
            assert(self.store.sessions@ =~= before.update(i as int, self.store.sessions@[i as int]));
        }
    }

    fn take_budget(&mut self, input: String, exhausted: bool, spent: String, budget: String) -> (r:
        Step)
        requires
            chat::wf(old(self)@),
        ensures
            final(self)@ == chat::on_budget(
                old(self)@,
                input@,
                exhausted,
                spent@,
                budget@,
            ).chat,
            r@ == chat::on_budget(old(self)@, input@, exhausted, spent@, budget@).out,
            chat::wf(final(self)@),
    {
        if exhausted {
            let mut e = text::cat3("已达 Token 预算上限（已用 ", spent.as_str(), " $ / 预算 ");
            e.append(budget.as_str());
            e.append(" $）。可在插件设置里调高「预算」。");
            self.phase = Phase::Done;
            return Effects::none().then_do(Request::Reply(agent::failed("chat", e.as_str())));
        }
        self.enter(input.as_str());
        self.phase = Phase::Poll;
        Effects::none().then_do(Request::Poll)
    }

    fn take_executed(&mut self, p: PendingAction, result: Result<ToolOut, String>, now: u64) -> (r:
        Step)
        requires
            chat::wf(old(self)@),
        ensures
            final(self)@ == chat::on_executed(old(self)@, p@, tools::outcome(result), now).chat,
            r@ == chat::on_executed(old(self)@, p@, tools::outcome(result), now).out,
            chat::wf(final(self)@),
    {
        let (answer, ok) = match result {
            Ok(ToolOut::Text(t)) => {
                let mut s = text::cat3("✅ 已执行：", p.summary.as_str(), "\n");
                s.append(agent::humanize_tool_text(t.as_str()).as_str());
                (s, true)
            },
            Ok(ToolOut::ConfirmNeeded { tool, args, summary }) => (
                text::cat("已处理：", p.summary.as_str()),
                true,
            ),
            Err(e) => (
                text::cat3("❌ 执行失败：", e.as_str(), "\n操作未生效，可重试或换一个目标。"),
                false,
            ),
        };
        self.hold(None);
        self.say(Msg::user("确认"));
        self.say(Msg::assistant(answer.as_str()));
        self.note(text::cat("✔ ", p.summary.as_str()));
        self.touch(now);
        let reply = Rec::new().text("type", "chat").flag("ok", true).text(
            "answer",
            answer.as_str(),
        ).text("sessionId", self.store.active.as_str()).flag("executed", ok).with(
            "confirm",
            Json::Null,
        ).done();
        let out = Effects::none().save(&self.store).then_do(Request::Reply(reply));
        self.phase = Phase::Done;
        out
    }

    fn settle(&mut self, effects: Effects, ending: Ending) -> (r: Step)
        requires
            chat::wf(old(self)@),
        ensures
            final(self)@ == chat::settling(old(self)@, effects@, ending@).chat,
            r@ == chat::settling(old(self)@, effects@, ending@).out,
            chat::wf(final(self)@),
    {
        assert(self@.store.sessions[self.at as int] == self.store.sessions@[self.at as int]@);
        self.phase = Phase::Settle(ending);
        effects.then_do(
            Request::Settle {
                session_cost: self.store.sessions[self.at].cost_usd.clone(),
                total_cost: self.store.totals_cost_usd.clone(),
                run_cost: self.run_cost.clone(),
                budget: self.cfg.budget_usd.clone(),
            },
        )
    }

    fn history(&self) -> (r: Vec<Msg>)
        requires
            chat::wf(self@),
        ensures
            session::msgs_of(r@) == chat::history(self@),
    {
        let ghost told = chat::session(self@).messages;
        let messages = &self.store.sessions[self.at].messages;
        assert(told == session::msgs_of(messages@));
        let mut all: Vec<Msg> = Vec::new();
        all.push(self.system.clone());
        let ghost base = Seq::<session::MsgV>::empty().push(self@.system);
        assert(session::msgs_of(all@) =~= base + told.take(0));
        let mut i: usize = 0;
        while i < messages.len()
            invariant
                i <= messages@.len(),
                told == session::msgs_of(messages@),
                session::msgs_of(all@) == base + told.take(i as int),
            decreases messages@.len() - i,
        {
            let ghost before = all@;
            let m = messages[i].clone();
            all.push(m);
            assert(session::msgs_of(all@) =~= session::msgs_of(before).push(m@));
            assert(base + told.take(i + 1) =~= (base + told.take(i as int)).push(
                told[i as int],
            ));
            i += 1;
        }
        assert(told.take(told.len() as int) =~= told);
        session::trim_history(&mut all, self.cfg.max_context);
        all
    }

    fn steps(&self) -> (r: Json)
        ensures
            r@ == chat::of_steps(self@),
    {
        Rec::new().pos("step", self.step as u64).pos("total", self.cfg.max_steps as u64).done()
    }

    fn take_poll(&mut self, interrupted: bool) -> (r: Step)
        requires
            chat::wf(old(self)@),
        ensures
            final(self)@ == chat::on_poll(old(self)@, interrupted).chat,
            r@ == chat::on_poll(old(self)@, interrupted).out,
            chat::wf(final(self)@),
    {
        if interrupted {
            let ending = Ending::Answer { answer: "（已打断）".to_owned(), interrupted: true };
            return self.settle(Effects::none(), ending);
        }
        if self.step >= self.cfg.max_steps {
            let ending = Ending::Answer {
                answer: "已达到单次任务的工具调用步数上限，任务中止。你可以让我继续或换个问法。".to_owned(),
                interrupted: false,
            };
            return self.settle(Effects::none(), ending);
        }
        self.step = self.step + 1;
        self.phase = Phase::Turn;
        let msgs = self.history();
        assert(session::msgs_of(msgs@).len() == msgs@.len());
        let body = llm::request_body(&self.cfg, &msgs, tools::schema());
        let line = text::cat3(
            "思考中…（第 ",
            text::write_u64(self.step as u64).as_str(),
            " 步）",
        );
        Effects::none().show("notice", line.as_str(), Some(self.steps())).then_do(
            Request::Ask { body, count: msgs.len() },
        )
    }
}

/// What a turn used, as far as it says.
fn used(turn: &Result<Turn, String>) -> (r: Option<Usage>)
    ensures
        r == chat::turn_usage(chat::turn_of(*turn)),
{
    match turn {
        Ok(t) => match &t.usage {
            Some(u) => Some(
                Usage { prompt: u.prompt_tokens, completion: u.completion_tokens, calls: 1 },
            ),
            None => None,
        },
        Err(_) => None,
    }
}

fn answer_in(t: &Turn) -> (r: String)
    ensures
        r@ == chat::answer_of(t@),
{
    if text::trim(t.content.as_str()).as_str().is_empty() && !t.reasoning.as_str().is_empty() {
        "（模型只输出了思考过程，没有给出最终回答，可重试或换模型。）".to_owned()
    } else {
        t.content.clone()
    }
}

fn some_text(s: &String) -> (r: Option<String>)
    ensures
        text::option_text(r) == chat::unless_empty(s@),
{
    if s.as_str().is_empty() {
        None
    } else {
        Some(s.clone())
    }
}

fn calls_list(calls: &Vec<ToolCall>) -> (r: Json)
    ensures
        r@ == json::Tree::Arr(chat::call_trees(llm::calls_of(calls@))),
{
    let ghost all = chat::call_trees(llm::calls_of(calls@));
    let mut list = Arr::new();
    let mut i: usize = 0;
    assert(all.take(0) =~= json::no_items());
    while i < calls.len()
        invariant
            i <= calls@.len(),
            all == chat::call_trees(llm::calls_of(calls@)),
            list@ == all.take(i as int),
        decreases calls@.len() - i,
    {
        let c = &calls[i];
        assert(llm::calls_of(calls@)[i as int] == c@);
        let f = Rec::new().text("name", c.name.as_str()).text(
            "arguments",
            c.arguments.as_str(),
        ).done();
        assert(all.take(i + 1) =~= all.take(i as int).push(chat::call_tree(c@)));
        list = list.with(
            Rec::new().text("id", c.id.as_str()).text("type", "function").with(
                "function",
                f,
            ).done(),
        );
        i += 1;
    }
    assert(all.take(all.len() as int) =~= all);
    list.done()
}

fn calls_message(t: &Turn) -> (r: Msg)
    ensures
        r@ == chat::call_msg(t@),
{
    Msg {
        role: "assistant".to_owned(),
        content: some_text(&t.content),
        reasoning: some_text(&t.reasoning),
        tool_calls: Some(calls_list(&t.tool_calls)),
        tool_call_id: None,
        name: None,
    }
}

fn read_args(arguments: &str) -> (r: Json)
    ensures
        r@ == chat::args_of(arguments@),
{
    match json::parse(arguments) {
        Some(v) => v,
        None => Rec::new().text("_raw", arguments).done(),
    }
}

impl Chat {
    fn take_turn(&mut self, turn: Result<Turn, String>, interrupted: bool, cost: Num, now: u64) -> (r:
        Step)
        requires
            chat::wf(old(self)@),
            chat::turn_usage(chat::turn_of(turn)) matches Some(u) ==> usage::fit(
                old(self).run_usage,
                u,
            ),
        ensures
            final(self)@ == chat::on_turn(
                old(self)@,
                chat::turn_of(turn),
                interrupted,
                cost@,
                now,
            ).chat,
            r@ == chat::on_turn(old(self)@, chat::turn_of(turn), interrupted, cost@, now).out,
            chat::wf(final(self)@),
    {
        if let Some(u) = used(&turn) {
            self.run_usage.add(&u);
            self.run_cost = cost;
        }
        assert(self@ == chat::counted(old(self)@, chat::turn_of(turn), cost@));
        if interrupted {
            self.roll_back();
            return self.settle(Effects::none(), Ending::Broken);
        }
        match turn {
            Err(e) => {
                self.roll_back();
                let ending = Ending::Failed { error: agent::friendly_llm(e) };
                self.settle(Effects::none(), ending)
            },
            Ok(t) => {
                assert(t@.tool_calls.len() == t.tool_calls@.len());
                if t.tool_calls.len() == 0 {
                    let answer = answer_in(&t);
                    self.say(Msg::assistant(answer.as_str()));
                    self.touch(now);
                    let effects = Effects::none().log("💾 会话写盘…").save(&self.store).log(
                        "💾 写盘完成",
                    );
                    self.settle(effects, Ending::Answer { answer, interrupted: false })
                } else {
                    self.say(calls_message(&t));
                    self.calls = t.tool_calls;
                    self.next = 0;
                    self.phase = Phase::ToolPoll;
                    Effects::none().then_do(Request::Poll)
                }
            },
        }
    }

    fn answered(&self, id: &str) -> (r: bool)
        requires
            self.next <= self.calls@.len(),
        ensures
            r == chat::is_answered(self@, id@),
    {
        let mut k: usize = 0;
        while k < self.next
            invariant
                k <= self.next,
                self.next <= self.calls@.len(),
                forall|j: int| 0 <= j < k ==> (#[trigger] self@.calls[j]).id != id@,
            decreases self.next - k,
        {
            assert(self@.calls[k as int] == self.calls@[k as int]@);
            if text::same(self.calls[k].id.as_str(), id) {
                return true;
            }
            k += 1;
        }
        false
    }

    fn fill(&mut self)
        requires
            chat::wf(old(self)@),
            old(self).next <= old(self).calls@.len(),
        ensures
            final(self)@ == chat::filled(old(self)@, 0),
            chat::wf(final(self)@),
    {
        let ghost all = self@.calls;
        let mut j: usize = 0;
        assert(all.len() == self.calls@.len());
        while j < self.calls.len()
            invariant
                j <= self.calls@.len(),
                self@.calls == all,
                all.len() == self.calls@.len(),
                self.next <= self.calls@.len(),
                chat::wf(self@),
                chat::filled(self@, j as int) == chat::filled(old(self)@, 0),
            decreases self.calls@.len() - j,
        {
            assert(self@.calls[j as int] == self.calls@[j as int]@);
            let id = self.calls[j].id.clone();
            if !self.answered(id.as_str()) {
                self.say(Msg::tool_result(id.as_str(), "（用户打断，未执行）"));
                assert(self@.calls.len() == self.calls@.len());
            }
            j += 1;
        }
    }

    fn take_tool_poll(&mut self, interrupted: bool, now: u64) -> (r: Step)
        requires
            chat::wf(old(self)@),
            old(self).phase is ToolPoll,
        ensures
            final(self)@ == chat::on_tool_poll(old(self)@, interrupted, now).chat,
            r@ == chat::on_tool_poll(old(self)@, interrupted, now).out,
            chat::wf(final(self)@),
    {
        assert(self@.calls.len() == self.calls@.len());
        if interrupted {
            self.fill();
            self.touch(now);
            let effects = Effects::none().save(&self.store);
            let answer = "（已打断，本轮工具调用已中止）".to_owned();
            self.say(Msg::assistant(answer.as_str()));
            return self.settle(effects, Ending::Answer { answer, interrupted: true });
        }
        assert(self@.calls[self.next as int] == self.calls@[self.next as int]@);
        let args = read_args(self.calls[self.next].arguments.as_str());
        let name = self.calls[self.next].name.clone();
        let mut line = text::cat3("→ 工具 ", name.as_str(), " · 步骤 ");
        line.append(text::write_u64(self.step as u64).as_str());
        line.append(" · 参数 ");
        line.append(text::take_chars(json::print(&args).as_str(), 160).as_str());
        let out = Effects::none().show(
            "tool",
            text::cat("🔧 ", name.as_str()).as_str(),
            Some(self.steps()),
        ).log(line.as_str()).then_do(Request::Execute { tool: name, args, confirmed: false });
        self.phase = Phase::Tool;
        out
    }

    fn go_on(&mut self, effects: Effects, now: u64) -> (r: Step)
        requires
            chat::wf(old(self)@),
            old(self).next < old(self).calls@.len(),
        ensures
            final(self)@ == chat::go_on(old(self)@, effects@, now).chat,
            r@ == chat::go_on(old(self)@, effects@, now).out,
            chat::wf(final(self)@),
    {
        assert(self@.calls.len() == self.calls@.len());
        let count = self.calls.len();
        self.phase = Phase::Poll;
        self.next = self.next + 1;
        if self.next < count {
            self.phase = Phase::ToolPoll;
            return effects.then_do(Request::Poll);
        }
        self.touch(now);
        effects.save(&self.store).then_do(Request::Poll)
    }

    fn take_tool(&mut self, result: Result<ToolOut, String>, elapsed: u64, now: u64) -> (r: Step)
        requires
            chat::wf(old(self)@),
            old(self).phase is Tool,
        ensures
            final(self)@ == chat::on_tool(old(self)@, tools::outcome(result), elapsed, now).chat,
            r@ == chat::on_tool(old(self)@, tools::outcome(result), elapsed, now).out,
            chat::wf(final(self)@),
    {
        assert(self@.calls.len() == self.calls@.len());
        assert(self@.calls[self.next as int] == self.calls@[self.next as int]@);
        let name = self.calls[self.next].name.clone();
        let id = self.calls[self.next].id.clone();
        let mut line = text::cat3("← 工具 ", name.as_str(), " 完成 · ");
        line.append(text::write_u64(elapsed).as_str());
        line.append("ms");
        let effects = Effects::none().log(line.as_str());
        match result {
            Ok(ToolOut::Text(t)) => {
                self.say(Msg::tool_result(id.as_str(), t.as_str()));
                let mut note = text::cat3("🔧 ", name.as_str(), " → ");
                note.append(text::write_usize(t.as_str().len()).as_str());
                note.append("B");
                self.note(note);
                let effects = effects.show(
                    "tool",
                    text::take_chars(t.as_str(), 140).as_str(),
                    None,
                );
                assert(self@.calls.len() == self.calls@.len());
                self.go_on(effects, now)
            },
            Err(e) => {
                self.say(
                    Msg::tool_result(id.as_str(), text::cat("错误：", e.as_str()).as_str()),
                );
                let mut note = text::cat3("✗ ", name.as_str(), "：");
                note.append(e.as_str());
                let effects = effects.show("tool", note.as_str(), None);
                self.note(note);
                assert(self@.calls.len() == self.calls@.len());
                self.go_on(effects, now)
            },
            Ok(ToolOut::ConfirmNeeded { tool, args, summary }) => {
                let told = text::cat3(
                    "{\"status\":\"awaiting_confirmation\",\"summary\":\"",
                    text::replace_char(summary.as_str(), '"', '\'').as_str(),
                    "\"}",
                );
                self.say(Msg::tool_result(id.as_str(), told.as_str()));
                self.note(text::cat3("⏸ ", summary.as_str(), "（等确认）"));
                self.touch(now);
                let effects = effects.save(&self.store);
                let answer = text::cat(
                    "请确认以下操作（回复「确认」执行，回复「取消」放弃）：\n",
                    summary.as_str(),
                );
                self.hold(Some(PendingAction { tool, args, summary: summary.clone() }));
                self.say(Msg::assistant(answer.as_str()));
                self.touch(now);
                self.settle(effects, Ending::Confirm { answer, summary })
            },
        }
    }
}

fn add_usage(s: &mut Session, u: &Usage, cost: Num)
    requires
        usage::fit(old(s).usage, *u),
    ensures
        final(s)@ == (session::SessionV {
            usage: usage::sum(old(s)@.usage, *u),
            cost_usd: cost@,
            ..old(s)@
        }),
{
    s.usage.add(u);
    s.cost_usd = cost;
}

impl Chat {
    fn show_usage(&self, effects: Effects, left: &Num, spent: &str) -> (r: Effects)
        requires
            chat::wf(self@),
        ensures
            r@ == effects@.push(chat::usage_progress(self@, left@, spent@)),
    {
        let s = &self.store.sessions[self.at];
        assert(chat::session(self@) == s@);
        let payload = Rec::new().with("sessionCostUsd", Json::Num(s.cost_usd.clone())).with(
            "totalCostUsd",
            Json::Num(self.store.totals_cost_usd.clone()),
        ).with("budgetUsd", Json::Num(self.cfg.budget_usd.clone())).with(
            "budgetLeftUsd",
            Json::Num(left.clone()),
        ).pos("sessionPrompt", s.usage.prompt).pos("sessionCompletion", s.usage.completion).pos(
            "totalPrompt",
            self.store.totals.prompt,
        ).pos("totalCompletion", self.store.totals.completion).pos(
            "totalCalls",
            self.store.totals.calls,
        ).done();
        effects.show("usage", spent, Some(payload))
    }

    fn last_reply(&self, ending: Ending, left: &Num) -> (r: Json)
        requires
            chat::wf(self@),
        ensures
            r@ == chat::final_reply(self@, ending@, left@),
    {
        let s = &self.store.sessions[self.at];
        assert(chat::session(self@) == s@);
        let run = agent::run_usage_payload(&self.run_usage, &self.run_cost);
        let mine = agent::session_usage_payload(s);
        let total = agent::total_usage_payload(&self.store, &self.cfg.budget_usd, left);
        let id = self.store.active.as_str();
        let base = Rec::new().text("type", "chat");
        match ending {
            Ending::Answer { answer, interrupted } => base.flag("ok", true).text(
                "answer",
                answer.as_str(),
            ).flag("interrupted", interrupted).text("sessionId", id).with("usage", run).with(
                "sessionUsage",
                mine,
            ).with("totalUsage", total).done(),
            Ending::Confirm { answer, summary } => base.flag("ok", true).text(
                "answer",
                answer.as_str(),
            ).text("sessionId", id).with(
                "confirm",
                Rec::new().text("summary", summary.as_str()).done(),
            ).with("usage", run).with("sessionUsage", mine).with("totalUsage", total).done(),
            Ending::Broken => base.flag("ok", true).text("answer", "（已打断）").flag(
                "interrupted",
                true,
            ).text("sessionId", id).done(),
            Ending::Failed { error } => base.flag("ok", false).text(
                "error",
                error.as_str(),
            ).text("sessionId", id).done(),
        }
    }

    fn take_costs(
        &mut self,
        ending: Ending,
        session_cost: Num,
        total_cost: Num,
        left: Num,
        spent: String,
    ) -> (r: Step)
        requires
            chat::wf(old(self)@),
            usage::fit(chat::session(old(self)@).usage, old(self).run_usage),
            usage::fit(old(self).store.totals, old(self).run_usage),
        ensures
            final(self)@ == chat::on_settled(
                old(self)@,
                ending@,
                session_cost@,
                total_cost@,
                left@,
                spent@,
            ).chat,
            r@ == chat::on_settled(
                old(self)@,
                ending@,
                session_cost@,
                total_cost@,
                left@,
                spent@,
            ).out,
            chat::wf(final(self)@),
    {
        let i = self.at;
        let ghost before = self.store.sessions@;
        let run = self.run_usage;
        assert(chat::session(self@) == before[i as int]@);
        add_usage(&mut self.store.sessions[i], &run, session_cost);
        proof {
            session::lemma_sessions_update(before, i as int, self.store.sessions@[i as int]);
            assert(self.store.sessions@ =~= before.update(i as int, self.store.sessions@[i as int]));
        }
        self.store.totals.add(&run);
        self.store.totals_cost_usd = total_cost;
        assert(self@ == chat::settled(old(self)@, session_cost@, total_cost@));
        let effects = Effects::none().save(&self.store);
        let effects = match &ending {
            Ending::Answer { answer, interrupted } => self.show_usage(
                effects,
                &left,
                spent.as_str(),
            ),
            _ => effects,
        };
        let reply = self.last_reply(ending, &left);
        self.phase = Phase::Done;
        effects.then_do(Request::Reply(reply))
    }

    /// The machine waits for such an event, and what is added up fits.
    pub fn accepts(&self, e: &Event) -> (r: bool)
        requires
            chat::wf(self@),
        ensures
            r == chat::takes(self@, e@),
    {
        assert(chat::session(self@) == self.store.sessions@[self.at as int]@);
        match (&self.phase, e) {
            (Phase::Confirmed(_), Event::Outcome { result, elapsed }) => true,
            (Phase::Budget(_), Event::Budget { exhausted, spent, budget }) => true,
            (Phase::Poll, Event::Interrupted(_)) => true,
            (Phase::Turn, Event::Turn { turn, interrupted, cost }) => match used(turn) {
                Some(u) => self.run_usage.takes(&u),
                None => true,
            },
            (Phase::ToolPoll, Event::Interrupted(_)) => true,
            (Phase::Tool, Event::Outcome { result, elapsed }) => true,
            (
                Phase::Settle(_),
                Event::Settled { session_cost, total_cost, left, spent },
            ) => self.store.sessions[self.at].usage.takes(&self.run_usage)
                && self.store.totals.takes(&self.run_usage),
            _ => false,
        }
    }

    /// Moves the machine on: `e` is what happened, `now` the time.
    pub fn step(&mut self, e: Event, now: u64) -> (r: Step)
        requires
            chat::wf(old(self)@),
            chat::takes(old(self)@, e@),
        ensures
            final(self)@ == chat::stepped(old(self)@, e@, now).chat,
            r@ == chat::stepped(old(self)@, e@, now).out,
            chat::wf(final(self)@),
    {
        match e {
            Event::Interrupted(b) => match &self.phase {
                Phase::Poll => self.take_poll(b),
                _ => self.take_tool_poll(b, now),
            },
            Event::Turn { turn, interrupted, cost } => self.take_turn(
                turn,
                interrupted,
                cost,
                now,
            ),
            Event::Outcome { result, elapsed } => {
                let waiting = match &self.phase {
                    Phase::Confirmed(p) => Some(p.clone()),
                    _ => None,
                };
                match waiting {
                    Some(p) => self.take_executed(p, result, now),
                    None => self.take_tool(result, elapsed, now),
                }
            },
            Event::Budget { exhausted, spent, budget } => {
                let input = match &self.phase {
                    Phase::Budget(s) => s.clone(),
                    _ => String::new(),
                };
                self.take_budget(input, exhausted, spent, budget)
            },
            Event::Settled { session_cost, total_cost, left, spent } => {
                let mut phase = Phase::Done;
                std::mem::swap(&mut phase, &mut self.phase);
                let ending = match phase {
                    Phase::Settle(ending) => ending,
                    _ => Ending::Broken,
                };
                self.take_costs(ending, session_cost, total_cost, left, spent)
            },
        }
    }
}

} // verus!
