use onethu_harness::agent::chat::{Chat, Effect, Event, Request, Step};
use onethu_harness::agent::machine::{says_no, says_yes};
use onethu_harness::agent::selftest::selftest;
use onethu_harness::agent::{
    delete_session, export_session, export_target, friendly_llm, humanize_tool_text,
    import_session, list_sessions, new_session, preflight, switch_session, system_prompt,
    usage_report,
};
use onethu_harness::config::{Config, Figures};
use onethu_harness::date::Date;
use onethu_harness::host::{line_of, route_line, Routed};
use onethu_harness::json::{Json, Num, Rec};
use onethu_harness::llm::{ToolCall, Turn};
use onethu_harness::session::{Msg, PendingAction, Session, Stamp, Store, MAX_TRACE};
use onethu_harness::tools::ToolOut;
use onethu_harness::usage::{ApiUsage, Usage};
use onethu_harness::{activate_commands, demand, dispatch, Command, Demand};

fn read(text: &str) -> Json {
    let line = format!("{{\"id\":1,\"result\":{}}}", text);
    match route_line(&line) {
        Routed::Answer { reply: Ok(v), .. } => v,
        _ => panic!("not JSON: {}", text),
    }
}

fn show(v: &Json) -> String {
    line_of(v).trim_end().to_string()
}

fn same(v: &Json, expected: &str) {
    let e: serde_json::Value = serde_json::from_str(expected).unwrap();
    assert_eq!(show(v), e.to_string());
}

fn figures(steps: u64) -> Figures {
    Figures {
        context: None,
        steps: Some(steps),
        price_in: Num::Pos(1),
        price_out: Num::Pos(2),
        budget_usd: Num::Pos(5),
    }
}

fn config(steps: u64) -> Config {
    let settings = Rec::new().text("apiKey", "k").text("model", "m").text("stream", "off").done();
    Config::from_settings(&settings, figures(steps))
}

fn stamp() -> Stamp {
    Stamp { millis: 100, created: 11, updated: 12 }
}

fn begin(store: Store, input: &str, steps: u64) -> (Chat, Step) {
    Chat::begin(config(steps), store, input, "NOW", stamp(), 50)
}

fn step(c: &mut Chat, e: Event) -> Step {
    assert!(c.accepts(&e));
    c.step(e, 60)
}

fn budget_ok() -> Event {
    Event::Budget { exhausted: false, spent: "0".to_string(), budget: "5".to_string() }
}

fn turn(content: &str, calls: &[(&str, &str, &str)]) -> Event {
    let tool_calls = calls
        .iter()
        .map(|(id, name, arguments)| ToolCall {
            id: id.to_string(),
            name: name.to_string(),
            arguments: arguments.to_string(),
        })
        .collect();
    Event::Turn {
        turn: Ok(Turn {
            content: content.to_string(),
            reasoning: String::new(),
            tool_calls,
            usage: Some(ApiUsage { prompt_tokens: 10, completion_tokens: 3 }),
        }),
        interrupted: false,
        cost: Num::Float("0.5".to_string()),
    }
}

fn settled() -> Event {
    Event::Settled {
        session_cost: Num::Float("0.5".to_string()),
        total_cost: Num::Float("1.5".to_string()),
        left: Num::Float("3.5".to_string()),
        spent: "$1.5000".to_string(),
    }
}

fn text_outcome(t: &str) -> Event {
    Event::Outcome { result: Ok(ToolOut::Text(t.to_string())), elapsed: 7 }
}

fn shown(s: &Step) -> Vec<String> {
    s.effects
        .iter()
        .map(|e| match e {
            Effect::Progress(v) => format!("{}:{}", v.text("kind"), v.text("text")),
            Effect::Save(_) => "save".to_string(),
        })
        .collect()
}

fn saved(s: &Step) -> &Store {
    for e in s.effects.iter().rev() {
        if let Effect::Save(store) = e {
            return store;
        }
    }
    panic!("nothing saved")
}

fn reply(s: &Step) -> &Json {
    match &s.request {
        Request::Reply(v) => v,
        other => panic!("{:?}", other),
    }
}

fn roles(s: &Session) -> Vec<String> {
    s.messages.iter().map(|m| m.role.clone()).collect()
}

#[test]
fn a_question_is_answered() {
    let (mut c, s) = begin(Store::empty(1), "明天有课吗", 4);
    assert!(matches!(&s.request, Request::Budget { budget: Num::Pos(5), .. }));
    assert!(s.effects.is_empty());
    let s = step(&mut c, budget_ok());
    assert!(matches!(&s.request, Request::Poll));
    let s = step(&mut c, Event::Interrupted(false));
    assert_eq!(shown(&s), vec!["notice:思考中…（第 1 步）"]);
    match &s.request {
        Request::Ask { body, count } => {
            assert_eq!(*count, 2);
            assert_eq!(body.text("model"), "m");
            let msgs = body.items_at("messages");
            assert_eq!(msgs[0].text("role"), "system");
            assert_eq!(msgs[1].text("content"), "明天有课吗");
            assert_eq!(body.items_at("tools").len(), 25);
        }
        other => panic!("{:?}", other),
    }
    let s = step(&mut c, turn("没有课", &[]));
    assert_eq!(shown(&s), vec!["log:💾 会话写盘…", "save", "log:💾 写盘完成"]);
    assert!(matches!(&s.request, Request::Settle { run_cost: Num::Float(t), .. } if t == "0.5"));
    let s = step(&mut c, settled());
    assert_eq!(shown(&s), vec!["save", "usage:$1.5000"]);
    same(
        reply(&s),
        r#"{"type":"chat","ok":true,"answer":"没有课","interrupted":false,"sessionId":"s1001","usage":{"prompt":10,"completion":3,"calls":1,"costUsd":0.5},"sessionUsage":{"prompt":10,"completion":3,"costUsd":0.5},"totalUsage":{"prompt":10,"completion":3,"calls":1,"costUsd":1.5,"budgetUsd":5,"budgetLeftUsd":3.5}}"#,
    );
    let store = saved(&s);
    assert_eq!(store.sessions[0].title, "明天有课吗");
    assert_eq!(roles(&store.sessions[0]), vec!["user", "assistant"]);
    assert_eq!(store.sessions[0].trace, vec!["👤 明天有课吗".to_string()]);
    assert_eq!(store.sessions[0].updated_at, 60);
    assert_eq!(store.totals, Usage { prompt: 10, completion: 3, calls: 1 });
    assert!(!c.accepts(&budget_ok()));
}

#[test]
fn only_thoughts_are_no_answer() {
    let (mut c, _) = begin(Store::empty(1), "q", 4);
    step(&mut c, budget_ok());
    step(&mut c, Event::Interrupted(false));
    let e = Event::Turn {
        turn: Ok(Turn {
            content: " ".to_string(),
            reasoning: "hm".to_string(),
            tool_calls: Vec::new(),
            usage: None,
        }),
        interrupted: false,
        cost: Num::Pos(9),
    };
    step(&mut c, e);
    let s = step(&mut c, settled());
    assert_eq!(reply(&s).text("answer"), "（模型只输出了思考过程，没有给出最终回答，可重试或换模型。）");
    assert_eq!(saved(&s).totals, Usage::default());
    assert!(matches!(&c.run_cost, Num::Float(t) if t == "0.0"));
}

#[test]
fn tools_are_run_in_turn() {
    let (mut c, _) = begin(Store::empty(1), "q", 4);
    step(&mut c, budget_ok());
    step(&mut c, Event::Interrupted(false));
    let s = step(
        &mut c,
        turn("", &[("a", "query_exams", "{\"x\":1}"), ("b", "query_news", "oops")]),
    );
    assert!(matches!(&s.request, Request::Poll));
    let s = step(&mut c, Event::Interrupted(false));
    assert_eq!(
        shown(&s),
        vec!["tool:🔧 query_exams", "log:→ 工具 query_exams · 步骤 1 · 参数 {\"x\":1}"]
    );
    match &s.request {
        Request::Execute { tool, args, confirmed } => {
            assert_eq!(tool, "query_exams");
            same(args, r#"{"x":1}"#);
            assert!(!confirmed);
        }
        other => panic!("{:?}", other),
    }
    let s = step(&mut c, text_outcome("考试"));
    assert_eq!(shown(&s), vec!["log:← 工具 query_exams 完成 · 7ms", "tool:考试"]);
    let s = step(&mut c, Event::Interrupted(false));
    assert!(matches!(&s.request, Request::Execute { args, .. } if show(args) == "{\"_raw\":\"oops\"}"));
    let s = step(&mut c, Event::Outcome { result: Err("坏".to_string()), elapsed: 1 });
    assert_eq!(
        shown(&s),
        vec!["log:← 工具 query_news 完成 · 1ms", "tool:✗ query_news：坏", "save"]
    );
    let session = &saved(&s).sessions[0];
    assert_eq!(roles(session), vec!["user", "assistant", "tool", "tool"]);
    assert_eq!(session.messages[1].content, None);
    assert_eq!(
        show(session.messages[1].tool_calls.as_ref().unwrap()),
        r#"[{"function":{"arguments":"{\"x\":1}","name":"query_exams"},"id":"a","type":"function"},{"function":{"arguments":"oops","name":"query_news"},"id":"b","type":"function"}]"#
    );
    assert_eq!(session.messages[2].tool_call_id, Some("a".to_string()));
    assert_eq!(session.messages[3].content, Some("错误：坏".to_string()));
    assert_eq!(session.trace, vec!["👤 q", "🔧 query_exams → 6B", "✗ query_news：坏"]);
    let s = step(&mut c, Event::Interrupted(false));
    assert!(matches!(&s.request, Request::Ask { count: 5, .. }));
    assert_eq!(c.step, 2);
}

#[test]
fn steps_are_limited() {
    let (mut c, _) = begin(Store::empty(1), "q", 2);
    step(&mut c, budget_ok());
    for _ in 0..2 {
        let s = step(&mut c, Event::Interrupted(false));
        assert!(matches!(&s.request, Request::Ask { .. }));
        step(&mut c, turn("", &[("a", "query_exams", "{}")]));
        step(&mut c, Event::Interrupted(false));
        step(&mut c, text_outcome("x"));
    }
    let s = step(&mut c, Event::Interrupted(false));
    assert!(matches!(&s.request, Request::Settle { .. }));
    let s = step(&mut c, settled());
    assert_eq!(
        reply(&s).text("answer"),
        "已达到单次任务的工具调用步数上限，任务中止。你可以让我继续或换个问法。"
    );
    assert_eq!(saved(&s).totals.calls, 2);
}

#[test]
fn an_exhausted_budget_stops_the_run() {
    let (mut c, _) = begin(Store::empty(1), "q", 2);
    let s = step(
        &mut c,
        Event::Budget { exhausted: true, spent: "2.0000".to_string(), budget: "2.00".to_string() },
    );
    assert!(s.effects.is_empty());
    same(
        reply(&s),
        r#"{"type":"chat","ok":false,"error":"已达 Token 预算上限（已用 2.0000 $ / 预算 2.00 $）。可在插件设置里调高「预算」。"}"#,
    );
}

fn awaiting() -> Store {
    let mut store = Store::empty(1);
    store.open_session("t", stamp());
    store.sessions[0].messages.push(Msg::user("old"));
    store.sessions[0].pending = Some(PendingAction {
        tool: "book_library_seat".to_string(),
        args: read(r#"{"seatIdx":1}"#),
        summary: "预约 \"A\"".to_string(),
    });
    store
}

#[test]
fn a_yes_runs_the_write() {
    let (mut c, s) = begin(awaiting(), " 确认 ", 4);
    assert_eq!(shown(&s), vec!["tool:执行已确认：预约 \"A\""]);
    match &s.request {
        Request::Execute { tool, args, confirmed } => {
            assert_eq!(tool, "book_library_seat");
            same(args, r#"{"seatIdx":1}"#);
            assert!(*confirmed);
        }
        other => panic!("{:?}", other),
    }
    let s = step(&mut c, text_outcome(r#"{"seat":"A2","time":"今天 08:00","success":true}"#));
    assert_eq!(shown(&s), vec!["save"]);
    same(
        reply(&s),
        r#"{"type":"chat","ok":true,"answer":"✅ 已执行：预约 \"A\"\nA2 · 今天 08:00","sessionId":"s1001","executed":true,"confirm":null}"#,
    );
    let session = &saved(&s).sessions[0];
    assert!(session.pending.is_none());
    assert_eq!(roles(session), vec!["user", "user", "assistant"]);
    assert_eq!(session.trace, vec!["✔ 预约 \"A\""]);
    let (mut c, _) = begin(awaiting(), "y", 4);
    let s = step(&mut c, Event::Outcome { result: Err("满".to_string()), elapsed: 1 });
    assert_eq!(reply(&s).text("answer"), "❌ 执行失败：满\n操作未生效，可重试或换一个目标。");
    assert!(matches!(reply(&s).get("executed"), Some(Json::Bool(false))));
    let (mut c, _) = begin(awaiting(), "好", 4);
    let again = ToolOut::ConfirmNeeded { tool: "x".to_string(), args: Json::Null, summary: "s".to_string() };
    let s = step(&mut c, Event::Outcome { result: Ok(again), elapsed: 1 });
    assert_eq!(reply(&s).text("answer"), "已处理：预约 \"A\"");
}

#[test]
fn a_no_drops_the_write() {
    let (_, s) = begin(awaiting(), "算了", 4);
    assert_eq!(shown(&s), vec!["save"]);
    same(
        reply(&s),
        r#"{"type":"chat","ok":true,"answer":"已取消：预约 \"A\"","sessionId":"s1001","confirm":null}"#,
    );
    let session = &saved(&s).sessions[0];
    assert!(session.pending.is_none());
    assert_eq!(session.messages[1].content, Some("取消".to_string()));
    assert_eq!(session.updated_at, 50);
    let (_, s) = begin(saved(&s).clone(), "确认", 4);
    assert!(matches!(&s.request, Request::Budget { .. }));
    let (c, s) = begin(awaiting(), "换一个", 4);
    assert!(matches!(&s.request, Request::Budget { .. }));
    assert!(c.store.sessions[0].pending.is_none());
    assert!(says_yes("OK") && !says_yes("ok "));
    assert!(says_no("N") && !says_no("确认"));
}

#[test]
fn a_write_awaits_the_user() {
    let (mut c, _) = begin(Store::empty(1), "订座", 4);
    step(&mut c, budget_ok());
    step(&mut c, Event::Interrupted(false));
    step(&mut c, turn("好的", &[("a", "book_library_seat", "{}"), ("b", "query_news", "{}")]));
    step(&mut c, Event::Interrupted(false));
    let needed = ToolOut::ConfirmNeeded {
        tool: "book_library_seat".to_string(),
        args: read("{}"),
        summary: "预约 \"A\"".to_string(),
    };
    let s = step(&mut c, Event::Outcome { result: Ok(needed), elapsed: 2 });
    assert_eq!(shown(&s), vec!["log:← 工具 book_library_seat 完成 · 2ms", "save"]);
    assert!(saved(&s).sessions[0].pending.is_none());
    let s = step(&mut c, settled());
    assert_eq!(shown(&s), vec!["save"]);
    let r = reply(&s);
    assert_eq!(
        r.text("answer"),
        "请确认以下操作（回复「确认」执行，回复「取消」放弃）：\n预约 \"A\""
    );
    assert_eq!(r.value("confirm").text("summary"), "预约 \"A\"");
    let session = &saved(&s).sessions[0];
    assert_eq!(session.pending.as_ref().unwrap().tool, "book_library_seat");
    assert_eq!(roles(session), vec!["user", "assistant", "tool", "assistant"]);
    assert_eq!(
        session.messages[2].content,
        Some("{\"status\":\"awaiting_confirmation\",\"summary\":\"预约 'A'\"}".to_string())
    );
    assert_eq!(session.trace[1], "⏸ 预约 \"A\"（等确认）");
    assert_eq!(session.usage.calls, 1);
}

#[test]
fn a_failed_turn_leaves_the_conversation_as_it_was() {
    let mut store = Store::empty(1);
    store.open_session("t", stamp());
    store.sessions[0].messages.push(Msg::user("old"));
    let (mut c, _) = begin(store, "q", 4);
    step(&mut c, budget_ok());
    step(&mut c, Event::Interrupted(false));
    step(&mut c, turn("", &[("a", "query_exams", "{}")]));
    step(&mut c, Event::Interrupted(false));
    step(&mut c, text_outcome("x"));
    step(&mut c, Event::Interrupted(false));
    let e = Event::Turn {
        turn: Err("LLM HTTP 401：no".to_string()),
        interrupted: false,
        cost: Num::Float("0.5".to_string()),
    };
    step(&mut c, e);
    let s = step(&mut c, settled());
    same(
        reply(&s),
        r#"{"type":"chat","ok":false,"error":"模型 API 鉴权失败（401）：请检查 API Key。","sessionId":"s1001"}"#,
    );
    let session = &saved(&s).sessions[0];
    assert_eq!(roles(session), vec!["user"]);
    assert_eq!(session.trace, vec!["👤 q"]);
    assert_eq!(session.usage.calls, 1);
}

#[test]
fn the_user_can_break_off() {
    let (mut c, _) = begin(Store::empty(1), "q", 4);
    step(&mut c, budget_ok());
    step(&mut c, Event::Interrupted(true));
    let s = step(&mut c, settled());
    assert_eq!(reply(&s).text("answer"), "（已打断）");

    let (mut c, _) = begin(Store::empty(1), "q", 4);
    step(&mut c, budget_ok());
    step(&mut c, Event::Interrupted(false));
    let e = Event::Turn { turn: Err("x".to_string()), interrupted: true, cost: Num::Pos(0) };
    step(&mut c, e);
    let s = step(&mut c, settled());
    same(
        reply(&s),
        r#"{"type":"chat","ok":true,"answer":"（已打断）","interrupted":true,"sessionId":"s1001"}"#,
    );
    assert!(saved(&s).sessions[0].messages.is_empty());

    let (mut c, _) = begin(Store::empty(1), "q", 4);
    step(&mut c, budget_ok());
    step(&mut c, Event::Interrupted(false));
    step(
        &mut c,
        turn("", &[("a", "query_exams", "{}"), ("b", "query_news", "{}"), ("a", "query_news", "{}")]),
    );
    step(&mut c, Event::Interrupted(false));
    step(&mut c, text_outcome("x"));
    let s = step(&mut c, Event::Interrupted(true));
    assert_eq!(shown(&s), vec!["save"]);
    let s = step(&mut c, settled());
    assert!(matches!(reply(&s).get("interrupted"), Some(Json::Bool(true))));
    assert_eq!(reply(&s).text("answer"), "（已打断，本轮工具调用已中止）");
    let session = &saved(&s).sessions[0];
    assert_eq!(roles(session), vec!["user", "assistant", "tool", "tool", "assistant"]);
    assert_eq!(session.messages[3].tool_call_id, Some("b".to_string()));
    assert_eq!(session.messages[3].content, Some("（用户打断，未执行）".to_string()));
}

#[test]
fn traces_are_bounded() {
    let mut store = Store::empty(1);
    store.open_session("t", stamp());
    for i in 0..MAX_TRACE {
        store.sessions[0].trace.push(format!("{}", i));
    }
    let (mut c, _) = begin(store, "q", 4);
    step(&mut c, budget_ok());
    let trace = &c.store.sessions[0].trace;
    assert_eq!(trace.len(), MAX_TRACE);
    assert_eq!(trace[0], "1");
    assert_eq!(trace[MAX_TRACE - 1], "👤 q");
}

#[test]
fn usages_that_do_not_fit_are_not_taken() {
    let mut store = Store::empty(1);
    store.totals.prompt = u64::MAX;
    let (mut c, _) = begin(store, "q", 4);
    step(&mut c, budget_ok());
    step(&mut c, Event::Interrupted(false));
    step(&mut c, turn("a", &[]));
    assert!(!c.accepts(&settled()));
}

#[test]
fn runs_start_with_settings() {
    let no = preflight(&Err("桥断".to_string()), figures(4)).unwrap_err();
    same(&no, r#"{"type":"chat","ok":false,"error":"读取设置失败：桥断"}"#);
    let no = preflight(&Ok(read("{}")), figures(4)).unwrap_err();
    assert_eq!(
        no.text("error"),
        "尚未配置 API Key：请到 设置→插件→OneTHU Harness 展开卡片填写后重试。"
    );
    let cfg = preflight(&Ok(read(r#"{"apiKey":"k"}"#)), figures(4)).unwrap();
    assert_eq!(cfg.max_steps, 4);
    let p = system_prompt("2025-09-10（周三）08:00", &cfg);
    assert!(p.starts_with("你是小OH（OneTHU Harness）——清华园校园助手"));
    assert!(p.contains("\n当前时间：2025-09-10（周三）08:00。\n\n能力（通过工具调用）"));
    assert!(p.ends_with("模型：deepseek-chat；上下文预算约 24000 tokens；单次任务最多 4 步工具调用。"));
}

#[test]
fn errors_of_the_model_are_told() {
    let t = |s: &str| friendly_llm(s.to_string());
    assert_eq!(t("会话未能建立 401"), "登录会话已失效，请重新打开 OneTHU 登录后继续。");
    assert_eq!(t("UnAuthorized"), "模型 API 鉴权失败（401）：请检查 API Key。");
    assert_eq!(t("LLM HTTP 404：x"), "模型接口 404：请检查 API Endpoint（一般应以 /v1 结尾）。");
    assert_eq!(t("x"), "x");
}

#[test]
fn results_are_told_briefly() {
    assert_eq!(
        humanize_tool_text(r#"{"date":"d","seat":"A","status":"","section":3}"#),
        "A · d"
    );
    assert_eq!(humanize_tool_text("{}"), "{}");
    assert_eq!(humanize_tool_text("[1]"), "[1]");
    assert_eq!(
        humanize_tool_text(&"字".repeat(221)),
        format!("{}…（全文 221 字略）", "字".repeat(220))
    );
}

#[test]
fn sessions_are_managed() {
    let mut store = Store::empty(1);
    let r = new_session(&mut store, stamp());
    same(
        &r,
        r#"{"type":"session","ok":true,"sessionId":"s1001","sessions":[{"id":"s1001","title":"新会话","updatedAt":12,"messages":0,"costUsd":0.0}]}"#,
    );
    store.sessions[0].messages.push(Msg::user("a"));
    store.sessions[0].messages.push(Msg::assistant("b"));
    same(
        &list_sessions(&store),
        r#"{"type":"sessions","ok":true,"active":"s1001","sessions":[{"id":"s1001","title":"新会话","updatedAt":12,"messages":1,"costUsd":0.0}]}"#,
    );
    let (ok, r) = switch_session(&mut store, "none");
    assert!(!ok);
    assert!(matches!(r.get("sessionId"), Some(Json::Null)));
    let (ok, r) = switch_session(&mut store, "s1001");
    assert!(ok);
    assert_eq!(r.text("sessionId"), "s1001");
    assert_eq!(export_target(&store, ""), Some(0));
    assert_eq!(export_target(&store, "none"), None);
    same(
        &export_session(&store, "", "{…}"),
        r#"{"type":"export","ok":true,"sessionId":"s1001","title":"新会话","json":"{…}"}"#,
    );
    same(&export_session(&store, "none", ""), r#"{"type":"export","ok":false,"error":"会话不存在"}"#);
    same(
        &usage_report(&store),
        r#"{"type":"usage","ok":true,"totals":{"prompt":0,"completion":0,"calls":0,"costUsd":0.0},"sessions":[{"id":"s1001","title":"新会话","updatedAt":12,"messages":1,"costUsd":0.0}]}"#,
    );
    let (ok, r) = delete_session(&mut store, "s1001");
    assert!(ok);
    same(&r, r#"{"type":"sessions","ok":true,"active":"","sessions":[]}"#);
    let (ok, _) = delete_session(&mut store, "s1001");
    assert!(!ok);
}

#[test]
fn an_exported_session_comes_back() {
    let mut store = awaiting();
    let mut copy = store.sessions[0].clone();
    copy.trace.push("line".to_string());
    let r = import_session(&mut store, Ok(copy), 777);
    assert_eq!(store.active, "i777");
    assert_eq!(r.text("title"), "t");
    assert_eq!(store.sessions.len(), 2);
    let back = &store.sessions[1];
    assert_eq!(back.id, "i777");
    assert!(back.pending.is_none());
    assert_eq!(back.messages[0].content, Some("old".to_string()));
    assert_eq!(back.trace, vec!["line".to_string()]);
    assert!(store.sessions[0].pending.is_some());
    let r = import_session(&mut store, Err("bad".to_string()), 778);
    same(&r, r#"{"type":"session","ok":false,"error":"导入失败：bad"}"#);
    assert_eq!(store.sessions.len(), 2);
}

#[test]
fn the_agent_tests_itself() {
    let r = selftest(Date { year: 2025, month: 9, day: 10 }, true);
    assert!(matches!(r.get("ok"), Some(Json::Bool(true))));
    assert_eq!(r.whole("pass"), 9);
    assert_eq!(r.whole("total"), 9);
    assert_eq!(r.text("today"), "2025-09-10");
    assert_eq!(r.whole("estTokens"), 4);
    let r = selftest(Date { year: 2025, month: 9, day: 10 }, false);
    assert!(matches!(r.get("ok"), Some(Json::Bool(false))));
    assert_eq!(r.items_at("results")[8].text("name"), "价格换算 0.27/1.10");
    assert_eq!(r.whole("pass"), 8);
}

#[test]
fn commands_are_dispatched() {
    let offered = activate_commands().items_at("commands");
    assert_eq!(offered.len(), 9);
    for c in &offered {
        assert!(dispatch(&c.text("id"), "x").is_ok());
    }
    assert_eq!(offered[0].text("inputPlaceholder"), "例：明天图书馆哪有空座？");
    assert!(matches!(dispatch("chat", " x "), Ok(Command::Chat(s)) if s == " x "));
    assert!(matches!(dispatch("switch_session", " x "), Ok(Command::SwitchSession(s)) if s == "x"));
    assert!(matches!(dispatch("delete_session", " x "), Ok(Command::DeleteSession(s)) if s == "x"));
    assert!(matches!(dispatch("export_session", " "), Ok(Command::ExportSession(s)) if s.is_empty()));
    assert!(matches!(dispatch("import_session", " x "), Ok(Command::ImportSession(s)) if s == " x "));
    assert!(matches!(dispatch("new_session", ""), Ok(Command::NewSession)));
    assert!(matches!(dispatch("list_sessions", ""), Ok(Command::ListSessions)));
    assert!(matches!(dispatch("usage_report", ""), Ok(Command::UsageReport)));
    assert!(matches!(dispatch("selftest", ""), Ok(Command::Selftest)));
    assert_eq!(dispatch("", "").unwrap_err().text("error"), "缺少命令名");
    assert_eq!(dispatch("fly", "").unwrap_err().text("error"), "未知命令：fly");
}

#[test]
fn demands_are_read() {
    let p = read(r#"{"command":"chat","input":"hi"}"#);
    assert!(matches!(demand("activate", &Json::Null, false), Demand::Activate));
    assert!(
        matches!(demand("run", &p, false), Demand::Run { command, input } if command == "chat" && input == "hi")
    );
    match demand("run", &p, true) {
        Demand::Busy(v) => assert_eq!(v.text("error"), "已有对话在运行：请等它完成，或点打断后再发。"),
        other => panic!("{:?}", other),
    }
    let q = read(r#"{"command":"selftest"}"#);
    assert!(matches!(demand("run", &q, true), Demand::Run { .. }));
    assert!(matches!(demand("dispose", &Json::Null, true), Demand::Dispose));
    assert!(matches!(demand("interrupt", &Json::Null, true), Demand::Nothing));
    assert!(matches!(demand("fly", &Json::Null, true), Demand::Unknown(m) if m == "未知方法：fly"));
}
