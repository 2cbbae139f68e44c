use onethu_harness::conn::{incoming, interrupt_reset, interrupt_take, next_id, Conn};
use onethu_harness::host::{
    asks_interrupt, call_request, late_message, line_of, notification, read_answer, reply_err,
    reply_ok, route, route_line, timeout_message, value_to_msg, Incoming, Routed,
};
use onethu_harness::json::{Arr, Json, Num, Rec};

fn read(text: &str) -> Json {
    let line = format!("{{\"id\":1,\"result\":{}}}", text);
    match route_line(&line) {
        Routed::Answer { reply: Ok(v), .. } => v,
        _ => panic!("not JSON: {}", text),
    }
}

fn show(v: &Json) -> String {
    line_of(v).trim_end().to_string()
}

fn same(v: &Json, expected: &str) {
    let e: serde_json::Value = serde_json::from_str(expected).unwrap();
    assert_eq!(show(v), e.to_string());
}

#[test]
fn json_is_read_and_written() {
    let text = r#"{"a":[1,-2,2.5,true,null,"x\"y"],"b":{}}"#;
    assert_eq!(show(&read(text)), text);
    assert_eq!(line_of(&Json::Bool(false)), "false\n");
    assert!(matches!(read("18446744073709551615"), Json::Num(Num::Pos(u64::MAX))));
    assert!(matches!(read("-9223372036854775808"), Json::Num(Num::Neg(i64::MIN))));
    assert!(matches!(read("0.1"), Json::Num(Num::Float(t)) if t == "0.1"));
    assert!(matches!(route_line("{nonsense"), Routed::Nothing));
}

#[test]
fn messages_are_routed() {
    match route_line(r#"{"id":"a","method":"run","params":{"x":1}}"#) {
        Routed::Request { id, method, params } => {
            assert_eq!(show(&id), "\"a\"");
            assert_eq!(method, "run");
            same(&params, r#"{"x":1}"#);
        }
        other => panic!("{:?}", other),
    }
    assert!(matches!(route_line(r#"{"method":"event"}"#), Routed::Notify { params: Json::Null, .. }));
    assert!(matches!(route_line(r#"{"id":null,"method":"event"}"#), Routed::Notify { .. }));
    assert!(matches!(route_line(r#"{"id":3,"method":"interrupt"}"#), Routed::Nothing));
    assert!(matches!(route_line(r#"{"id":-3}"#), Routed::Nothing));
    assert!(matches!(route_line("[]"), Routed::Nothing));
    match route_line(r#"{"id":5,"error":{"message":"no"}}"#) {
        Routed::Answer { id: 5, reply: Err(e) } => assert_eq!(e, "no"),
        other => panic!("{:?}", other),
    }
    match route_line(r#"{"id":5,"error":{"code":1}}"#) {
        Routed::Answer { id: 5, reply: Err(e) } => assert_eq!(e, r#"{"code":1}"#),
        other => panic!("{:?}", other),
    }
    assert!(matches!(read_answer(&Rec::new().done()), Ok(Json::Null)));
}

#[test]
fn frames_are_as_the_host_takes_them() {
    same(
        &reply_ok(&Json::Num(Num::Pos(1)), Json::Null),
        r#"{"jsonrpc":"2.0","id":1,"result":null}"#,
    );
    same(
        &reply_err(&Json::Num(Num::Pos(1)), "bad"),
        r#"{"jsonrpc":"2.0","id":1,"error":{"code":-32000,"message":"bad"}}"#,
    );
    same(
        &notification("progress", Json::Bool(true)),
        r#"{"jsonrpc":"2.0","method":"progress","params":true}"#,
    );
    same(
        &call_request(1001, "card", "info", Arr::new().done()),
        r#"{"jsonrpc":"2.0","id":1001,"method":"onethu.call","params":{"ns":"card","method":"info","args":[]}}"#,
    );
    assert_eq!(timeout_message(30_000), "宿主桥应答超时（30s）");
    assert_eq!(late_message("card", "info", 7), "[harness] ⏸ 桥调用 card.info（#7）已等 5s 仍无回执");
    assert_eq!(value_to_msg(&Json::Text("x".to_string())), "x");
    assert_eq!(value_to_msg(&Json::Null), "null");
}

#[test]
fn sent_frames_are_routed_back() {
    let call = call_request(1001, "card", "info", Arr::new().done());
    assert!(matches!(route(&call), Routed::Request { .. }));
    let ok = reply_ok(&Json::Num(Num::Pos(9)), Json::Bool(true));
    assert!(matches!(route(&ok), Routed::Answer { id: 9, reply: Ok(Json::Bool(true)) }));
    let err = reply_err(&Json::Num(Num::Pos(9)), "no");
    assert!(matches!(route(&err), Routed::Answer { id: 9, reply: Err(e) } if e == "no"));
    let note = notification("event", Json::Null);
    assert!(matches!(route(&note), Routed::Notify { method, .. } if method == "event"));
}

#[test]
fn interrupts_are_noted() {
    assert!(asks_interrupt(r#"{"jsonrpc":"2.0","method":"interrupt"}"#));
    assert!(asks_interrupt(r#"{ "jsonrpc": "2.0", "method": "interrupt" }"#));
    assert!(!asks_interrupt(r#"{"jsonrpc":"2.0","method":"run"}"#));
    assert!(!asks_interrupt(r#"{"method":"run","params":{"method":"interrupt"}}"#));
    assert!(!asks_interrupt(r#"{"method":"run","params":"\"method\":\"interrupt\""}"#));
    assert!(!asks_interrupt(r#""method":"interrupt""#));
    assert!(matches!(route_line(r#"{ "method" : "interrupt", "id": 3 }"#), Routed::Nothing));
    let mut flag = true;
    assert!(interrupt_take(&mut flag));
    assert!(!interrupt_take(&mut flag));
    flag = true;
    interrupt_reset(&mut flag);
    assert!(!flag);
}

#[test]
fn answers_wait_for_their_call() {
    let mut c = Conn::new();
    let mut seq = 1000;
    let a = next_id(&mut seq);
    let b = next_id(&mut seq);
    assert_eq!((a, b), (1001, 1002));
    let other = incoming(route_line(r#"{"id":1002,"result":"b"}"#)).unwrap();
    assert!(c.accept(a, other).is_none());
    let request = incoming(route_line(r#"{"id":1,"method":"dispose"}"#)).unwrap();
    assert!(c.accept(a, request).is_none());
    let note = incoming(route_line(r#"{"method":"event"}"#)).unwrap();
    assert!(c.accept(a, note).is_none());
    assert!(c.claim(a).is_none());
    let mine = incoming(route_line(r#"{"id":1001,"result":"a"}"#)).unwrap();
    assert!(matches!(c.accept(a, mine), Some(Ok(Json::Text(t))) if t == "a"));
    assert!(matches!(c.claim(b), Some(Ok(Json::Text(t))) if t == "b"));
    assert!(c.claim(b).is_none());
    let kept = c.take_deferred();
    assert_eq!(kept.len(), 1);
    assert_eq!(kept[0].1, "dispose");
    assert!(c.take_deferred().is_empty());
    let refused = incoming(route_line(r#"{"id":7,"error":{"message":"no"}}"#)).unwrap();
    assert!(matches!(&refused, Incoming::Response { id: 7, ok: false, value: Json::Null }));
    assert!(matches!(c.accept(7, refused), Some(Err(e)) if e == "null"));
    assert!(incoming(Routed::Nothing).is_none());
}

#[test]
fn a_whole_call_is_paired_with_its_answer() {
    let mut c = Conn::new();
    let mut seq = 1000;
    let call = c.call(&mut seq, "card", "info", Arr::new().done());
    assert_eq!((seq, call.id), (1001, 1001));
    assert!(call.answer.is_none());
    same(
        &call.request,
        r#"{"jsonrpc":"2.0","id":1001,"method":"onethu.call","params":{"ns":"card","method":"info","args":[]}}"#,
    );
    assert!(c.hear(1001, "not JSON").is_none());
    assert!(c.hear(1001, r#"{"id":"a","method":"run"}"#).is_none());
    assert!(c.hear(1001, r#"{"id":1002,"result":1}"#).is_none());
    assert!(c.hear(1001, r#"{"id":"b","method":"dispose"}"#).is_none());
    assert!(c.hear(1001, r#"{"id":1002,"result":2}"#).is_none());
    assert!(matches!(c.hear(1001, r#"{"id":1001}"#), Some(Ok(Json::Null))));
    let kept: Vec<String> = c.take_deferred().into_iter().map(|x| x.1).collect();
    assert_eq!(kept, vec!["run", "dispose"]);
    let call = c.call(&mut seq, "card", "info", Arr::new().done());
    assert_eq!(call.id, 1002);
    assert!(matches!(call.answer, Some(Ok(Json::Num(Num::Pos(2))))));
    let call = c.call(&mut seq, "card", "info", Arr::new().done());
    assert!(call.answer.is_none());
    assert!(matches!(
        c.hear(1003, r#"{"id":1003,"error":{"message":"no"},"result":1}"#),
        Some(Err(e)) if e == "null"
    ));
}
