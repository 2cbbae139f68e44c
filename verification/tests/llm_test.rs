use onethu_harness::config::{Config, Figures};
use onethu_harness::host::{line_of, route_line, Routed};
use onethu_harness::json::{Json, Num, Rec};
use onethu_harness::llm::{
    authorization, format_err, http_err, is_streamed, parse_completion, request_body,
    request_log, request_url, stream_err, transport_err, LlmError, Stream,
};
use onethu_harness::session::Msg;

fn read(text: &str) -> Json {
    let line = format!("{{\"id\":1,\"result\":{}}}", text);
    match route_line(&line) {
        Routed::Answer { reply: Ok(v), .. } => v,
        _ => panic!("not JSON: {}", text),
    }
}

fn same(v: &Json, expected: &str) {
    let e: serde_json::Value = serde_json::from_str(expected).unwrap();
    assert_eq!(line_of(v).trim_end(), e.to_string());
}

fn config(stream: &str) -> Config {
    let figures = Figures {
        context: None,
        steps: None,
        price_in: Num::Pos(1),
        price_out: Num::Pos(1),
        budget_usd: Num::Pos(1),
    };
    Config::from_settings(
        &Rec::new().text("model", "m").text("baseUrl", "http://h/v1").text("stream", stream).done(),
        figures,
    )
}

#[test]
fn requests_hold_the_conversation() {
    let c = config("off");
    assert_eq!(request_url(&c), "http://h/v1/chat/completions");
    assert_eq!(authorization(&c), "Bearer ");
    assert!(!is_streamed(&c, "text/event-stream"));
    assert!(is_streamed(&config("on"), "text/event-stream; charset=utf-8"));
    assert!(!is_streamed(&config("on"), "application/json"));
    assert_eq!(request_log(&c, 3), "[harness] LLM ← m (3 msgs, stream=false)");
    let msgs = vec![Msg::system("s"), Msg::user("u")];
    same(
        &request_body(&c, &msgs, Vec::new()),
        r#"{"model":"m","messages":[{"role":"system","content":"s"},{"role":"user","content":"u"}],"stream":false}"#,
    );
    same(
        &request_body(&config("on"), &Vec::new(), vec![Json::Null]),
        r#"{"model":"m","messages":[],"stream":true,"tools":[null],"tool_choice":"auto","stream_options":{"include_usage":true}}"#,
    );
}

#[test]
fn errors_are_told() {
    assert_eq!(http_err(401, r#"{"error":{"message":"bad key"}}"#).message, "LLM HTTP 401：bad key");
    assert_eq!(http_err(500, "oops").message, "LLM HTTP 500：oops");
    let long = "x".repeat(500);
    assert_eq!(http_err(500, &long).message, format!("LLM HTTP 500：{}", "x".repeat(400)));
    assert_eq!(transport_err("dns").message, "LLM 网络错误：dns");
    assert_eq!(format_err("eof").message, "响应解析失败：eof");
    assert_eq!(stream_err("reset").message, "流读取中断：reset");
    assert_eq!(LlmError::from("x".to_string()).message, "x");
}

#[test]
fn whole_answers_are_read() {
    let v = read(
        r#"{"choices":[{"message":{"content":"hi","tool_calls":[
            {"id":"c1","function":{"name":"f","arguments":"{\"a\":1}"}},
            {"function":{"name":"g"}}, {"function":{}}, {}]}}],
            "usage":{"prompt_tokens":5,"completion_tokens":2}}"#,
    );
    let t = parse_completion(&v).unwrap();
    assert_eq!(t.content, "hi");
    assert_eq!(t.reasoning, "");
    assert_eq!(t.tool_calls.len(), 2);
    assert_eq!(t.tool_calls[0].id, "c1");
    assert_eq!(t.tool_calls[0].arguments, "{\"a\":1}");
    assert_eq!(t.tool_calls[1].id, "call_0");
    assert_eq!(t.tool_calls[1].arguments, "{}");
    assert_eq!(t.usage.unwrap().prompt_tokens, 5);
    let t = parse_completion(&read("{}")).unwrap();
    assert_eq!(t.content, "");
    assert!(t.usage.is_none());
    let e = parse_completion(&read(r#"{"error":{"code":9}}"#)).unwrap_err();
    assert_eq!(e.message, r#"LLM 错误：{"code":9}"#);
}

#[test]
fn streams_join_their_pieces() {
    let mut s = Stream::new();
    assert!(s.feed_line(": keep alive").delta.is_none());
    assert!(!s.feed_line("").end);
    assert!(!s.feed_line("event: x").end);
    assert!(s.feed_line("data: {oops").delta.is_none());
    let f = s.feed_line(r#"data: {"choices":[{"delta":{"reasoning_content":"hm","content":""}}]}"#);
    assert_eq!(f.think, Some("hm".to_string()));
    assert_eq!(f.delta, None);
    let f = s.feed_line(r#"data:{"choices":[{"delta":{"content":"你"}}]}"#);
    assert_eq!(f.delta, Some("你".to_string()));
    s.feed_line(r#"data: {"choices":[{"delta":{"content":"好"}}]}"#);
    s.feed_line(
        r#"data: {"choices":[{"delta":{"tool_calls":[{"index":1,"id":"b","function":{"name":"g","arguments":"{"}}]}}]}"#,
    );
    s.feed_line(
        r#"data: {"choices":[{"delta":{"tool_calls":[{"id":"a","function":{"name":"f"}},{"index":1,"id":"","function":{"arguments":"}"}}]}}]}"#,
    );
    s.feed_line(r#"data: {"choices":[],"usage":{"prompt_tokens":3,"completion_tokens":4}}"#);
    assert!(s.feed_line("data: [DONE]").end);
    let t = s.finish();
    assert_eq!(t.content, "你好");
    assert_eq!(t.reasoning, "hm");
    assert_eq!(t.tool_calls.len(), 2);
    assert_eq!((t.tool_calls[0].id.as_str(), t.tool_calls[0].name.as_str()), ("a", "f"));
    assert_eq!((t.tool_calls[1].id.as_str(), t.tool_calls[1].name.as_str()), ("b", "g"));
    assert_eq!(t.tool_calls[1].arguments, "{}");
    assert_eq!(t.usage.unwrap().completion_tokens, 4);
}
