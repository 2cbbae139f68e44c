use onethu_harness::host::{line_of, route_line, Routed};
use onethu_harness::json::{Arr, Json, Num, Rec};
use onethu_harness::session::{
    checked_history_tokens, history_tokens, now_ms, trim_history, zero_cost, Msg, Stamp, Store,
    MAX_SESSIONS, STORE_KEY,
};
use onethu_harness::usage::Usage;

fn read(text: &str) -> Json {
    let line = format!("{{\"id\":1,\"result\":{}}}", text);
    match route_line(&line) {
        Routed::Answer { reply: Ok(v), .. } => v,
        _ => panic!("not JSON: {}", text),
    }
}

fn same(v: &Json, expected: &str) {
    let e: serde_json::Value = serde_json::from_str(expected).unwrap();
    assert_eq!(line_of(v).trim_end(), e.to_string());
}

fn stamp(millis: i64) -> Stamp {
    Stamp { millis, created: 11, updated: 12 }
}

fn ids(s: &Store) -> Vec<String> {
    s.sessions.iter().map(|x| x.id.clone()).collect()
}

#[test]
fn messages_are_sent_as_the_service_takes_them() {
    same(&Msg::user("u").to_value(), r#"{"role":"user","content":"u"}"#);
    same(&Msg::tool_result("c", "r").to_value(), r#"{"role":"tool","content":"r","tool_call_id":"c"}"#);
    let mut m = Msg::assistant("a");
    m.reasoning = Some("thought".to_string());
    same(&m.to_value(), r#"{"role":"assistant","content":"a"}"#);
    m.content = None;
    m.tool_calls = Some(Arr::new().done());
    same(&m.to_value(), r#"{"role":"assistant","content":"","reasoning_content":"thought","tool_calls":[]}"#);
    let mut n = Msg::user("x");
    n.content = None;
    n.name = Some("bob".to_string());
    same(&n.to_value(), r#"{"role":"user","name":"bob"}"#);
}

#[test]
fn sessions_open_and_become_active() {
    let mut s = Store::empty(1);
    s.open_session("一二三四五六七八九十一二三四五六七八九十一二三四五六", stamp(100));
    assert_eq!(s.active, "s1001");
    assert_eq!(s.sessions[0].title.chars().count(), 24);
    assert_eq!((s.sessions[0].created_at, s.sessions[0].updated_at), (11, 12));
    assert!(matches!(&s.sessions[0].cost_usd, Num::Float(t) if t == "0.0"));
    assert!(matches!(zero_cost(), Num::Float(_)));
    assert_eq!(s.sessions[0].usage, Usage::default());
    assert_eq!(s.activate(stamp(200)), 0);
    s.active = "gone".to_string();
    assert_eq!(s.activate(stamp(200)), 1);
    assert_eq!(s.active, "s2002");
    assert_eq!(s.sessions[1].title, "新会话");
}

#[test]
fn clocks_stamp_new_sessions() {
    let before = now_ms();
    let mut s = Store::empty(1);
    let id = s.new_session("t").id.clone();
    assert_eq!(s.active, id);
    assert!(id.starts_with('s') && id.ends_with('1'));
    assert!(s.sessions[0].created_at >= before);
    assert!(before > 1_600_000_000_000);
    s.ensure_active().title = "renamed".to_string();
    assert_eq!(s.sessions[0].title, "renamed");
    s.active_mut().unwrap().title = "again".to_string();
    assert_eq!(s.sessions[0].title, "again");
    s.active = String::new();
    assert!(s.active_mut().is_none());
    s.ensure_active();
    assert_eq!(s.sessions.len(), 2);
}

#[test]
fn oldest_session_goes_where_there_are_too_many() {
    let mut s = Store::empty(1);
    for i in 0..MAX_SESSIONS {
        s.open_session("t", stamp(i as i64));
    }
    let first = s.sessions[0].id.clone();
    let second = s.sessions[1].id.clone();
    assert!(s.switch(&first));
    s.open_session("new", stamp(99));
    assert_eq!(s.sessions.len(), MAX_SESSIONS);
    assert_eq!(s.sessions[0].id, first);
    assert!(!ids(&s).contains(&second));
    assert_eq!(s.sessions[MAX_SESSIONS - 1].id, s.active);
}

#[test]
fn sessions_are_switched_and_deleted() {
    let mut s = Store::empty(1);
    s.open_session("a", stamp(1));
    s.open_session("b", stamp(2));
    s.open_session("c", stamp(3));
    let all = ids(&s);
    assert!(!s.switch("none"));
    assert!(s.switch(&all[1]));
    assert_eq!(s.active, all[1]);
    assert_eq!(s.position(&all[2]), 2);
    assert_eq!(s.position("none"), 3);
    assert!(s.delete(&all[1]));
    assert_eq!(ids(&s), vec![all[0].clone(), all[2].clone()]);
    assert_eq!(s.active, all[2]);
    assert!(!s.delete(&all[1]));
    assert!(s.delete(&all[0]));
    assert_eq!(s.active, all[2]);
    assert!(s.delete(&all[2]));
    assert_eq!(s.active, "");
}

#[test]
fn stores_are_loaded() {
    assert_eq!(STORE_KEY, "harness.v1");
    assert_eq!(Store::load(&Json::Null, None).v, 1);
    assert_eq!(Store::load(&Json::Bool(true), None).v, 0);
    assert_eq!(Store::load(&Json::Bool(true), Some(Store::empty(7))).v, 7);
}

fn stored(active: &str, sizes: &[(&str, usize)]) -> Json {
    let mut list = Arr::new();
    for (id, n) in sizes {
        list = list.with(Rec::new().text("id", id).text("x", &"y".repeat(*n)).done());
    }
    Rec::new().text("active", active).with("sessions", list.done()).done()
}

fn stored_ids(v: &Json) -> Vec<String> {
    v.items_at("sessions").iter().map(|s| s.text("id")).collect()
}

#[test]
fn large_stores_shed_their_oldest_sessions() {
    let small = stored("a", &[("a", 10), ("b", 10)]);
    assert_eq!(stored_ids(&Store::save(small)), vec!["a".to_string(), "b".to_string()]);
    let large = stored("a", &[("a", 500_000), ("b", 500_000), ("c", 500_000)]);
    assert_eq!(stored_ids(&Store::save(large)), vec!["a".to_string(), "c".to_string()]);
    let huge = stored("a", &[("a", 1_300_000), ("b", 10), ("c", 10)]);
    assert_eq!(stored_ids(&Store::save(huge)), vec!["a".to_string()]);
    let wide = stored("b", &[("a", 10), ("b", 1_300_000)]);
    assert_eq!(stored_ids(&Store::save(wide)), vec!["b".to_string()]);
    let odd = read(r#"{"active":"a"}"#);
    same(&Store::save(odd), r#"{"active":"a"}"#);
}

#[test]
fn histories_are_measured() {
    let mut calls = Msg::assistant("");
    calls.tool_calls = Some(read(r#"[{"id":"c"}]"#));
    assert_eq!(history_tokens(&vec![Msg::user("你好")]), 3 + 4);
    assert_eq!(history_tokens(&vec![calls.clone()]), 1 + (12 / 4 + 1) + 4);
    assert_eq!(checked_history_tokens(&vec![Msg::user("你好"), calls]), Some(7 + 9));
    assert_eq!(checked_history_tokens(&Vec::new()), Some(0));
}

#[test]
fn histories_are_trimmed_from_the_oldest() {
    let long = "长".repeat(500);
    let mut msgs = vec![
        Msg::system("sys"),
        Msg::user(&long),
        Msg::assistant(&long),
        Msg::user("最新问题"),
    ];
    trim_history(&mut msgs, 200);
    let roles: Vec<String> = msgs.iter().map(|m| m.role.clone()).collect();
    assert_eq!(roles, vec!["system", "assistant", "user"]);
    assert_eq!(msgs[2].content, Some("最新问题".to_string()));
    let mut short = vec![Msg::user("a"), Msg::user("b")];
    trim_history(&mut short, 0);
    assert_eq!(short.len(), 2);
}

#[test]
fn trimming_keeps_calls_and_results_together() {
    let long = "长".repeat(300);
    let mut calls = Msg::assistant("");
    calls.tool_calls = Some(read("[]"));
    let mut msgs = vec![
        Msg::system("sys"),
        calls,
        Msg::tool_result("a", &long),
        Msg::tool_result("b", &long),
        Msg::user("q"),
        Msg::assistant("r"),
        Msg::user("s"),
    ];
    trim_history(&mut msgs, 100);
    let roles: Vec<String> = msgs.iter().map(|m| m.role.clone()).collect();
    assert_eq!(roles, vec!["system", "user", "assistant", "user"]);
}

#[test]
fn an_old_result_at_the_front_is_cut_first() {
    let long = "长".repeat(300);
    let mut msgs = vec![
        Msg::system("sys"),
        Msg::tool_result("a", &long),
        Msg::user("q"),
        Msg::user("s"),
    ];
    trim_history(&mut msgs, 200);
    assert_eq!(msgs.len(), 4);
    assert_eq!(
        msgs[1].content,
        Some(format!("{}（早前工具结果已省略）", "长".repeat(60)))
    );
}

#[test]
fn old_results_are_cut_before_anything_is_dropped() {
    let mut calls = Msg::assistant("");
    calls.content = None;
    calls.tool_calls = Some(read("[]"));
    let mut msgs = vec![
        Msg::system("s"),
        Msg::user("q"),
        calls.clone(),
        Msg::tool_result("c1", &"长".repeat(500)),
        Msg::user("新"),
    ];
    trim_history(&mut msgs, 200);
    assert_eq!(msgs.len(), 5);
    assert!(history_tokens(&msgs) <= 200);
    assert_eq!(
        msgs[3].content,
        Some(format!("{}（早前工具结果已省略）", "长".repeat(60)))
    );
    let mut msgs = vec![
        Msg::system("s"),
        calls.clone(),
        Msg::tool_result("c1", &"长".repeat(300)),
        Msg::tool_result("c2", &"短".repeat(100)),
        Msg::user("新"),
    ];
    trim_history(&mut msgs, 250);
    assert_eq!(msgs.len(), 5);
    assert_eq!(msgs[2].content.as_ref().unwrap().chars().count(), 71);
    assert_eq!(msgs[3].content, Some("短".repeat(100)));
    let mut msgs = vec![
        Msg::system("s"),
        Msg::system("s"),
        Msg::system("s"),
        calls,
        Msg::tool_result("c1", &"长".repeat(300)),
        Msg::user(&"新".repeat(90)),
    ];
    trim_history(&mut msgs, 120);
    let roles: Vec<String> = msgs.iter().map(|m| m.role.clone()).collect();
    assert_eq!(roles, vec!["system", "system", "system", "user"]);
}
