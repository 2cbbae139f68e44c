use onethu_harness::host::{line_of, route_line, Routed};
use onethu_harness::json::Json;
use onethu_harness::madmodel;
use onethu_harness::mcp::{
    call_request, content_text, hear, initialize, initialized, list_request, list_tools,
    parse_servers, read_reply, spawn_error, tool_full_name, write_error, Heard,
};

fn read(text: &str) -> Json {
    let line = format!("{{\"id\":1,\"result\":{}}}", text);
    match route_line(&line) {
        Routed::Answer { reply: Ok(v), .. } => v,
        _ => panic!("not JSON: {}", text),
    }
}

fn same(v: &Json, expected: &str) {
    let e: serde_json::Value = serde_json::from_str(expected).unwrap();
    assert_eq!(line_of(v).trim_end(), e.to_string());
}

#[test]
fn servers_are_read_from_the_setting() {
    let raw = r#" [{"name":"fs","command":"npx","args":["-y",3,"/p"],"env":{"B":"2","A":"1","N":4}},
        {"name":"","command":"x"}, 7, {"name":"b","command":"c"}] "#;
    let servers = parse_servers(raw);
    assert_eq!(servers.len(), 2);
    assert_eq!(servers[0].name, "fs");
    assert_eq!(servers[0].command, "npx");
    assert_eq!(servers[0].args, vec!["-y".to_string(), "/p".to_string()]);
    assert_eq!(
        servers[0].env,
        vec![("A".to_string(), "1".to_string()), ("B".to_string(), "2".to_string())]
    );
    assert_eq!(servers[1].name, "b");
    assert!(servers[1].args.is_empty());
    assert!(parse_servers("  ").is_empty());
    assert!(parse_servers("{oops").is_empty());
    assert!(parse_servers("{}").is_empty());
}

#[test]
fn tool_names_are_safe() {
    assert_eq!(tool_full_name("my-fs", "read.file"), "mcp_my_fs_read_file");
    assert_eq!(tool_full_name("图书", "a_1"), "mcp____a_1");
}

#[test]
fn requests_are_framed() {
    same(
        &initialize(),
        r#"{"jsonrpc":"2.0","id":1,"method":"initialize","params":{"protocolVersion":"2024-11-05","capabilities":{},"clientInfo":{"name":"OneTHU","version":"1.0.0"}}}"#,
    );
    same(&initialized(), r#"{"jsonrpc":"2.0","method":"notifications/initialized"}"#);
    same(&list_request(), r#"{"jsonrpc":"2.0","id":2,"method":"tools/list","params":{}}"#);
    same(
        &call_request("read", &read(r#"{"path":"/"}"#)),
        r#"{"jsonrpc":"2.0","id":3,"method":"tools/call","params":{"name":"read","arguments":{"path":"/"}}}"#,
    );
}

#[test]
fn replies_go_by_number() {
    assert!(read_reply(2, "starting…").is_none());
    assert!(read_reply(2, r#"{"id":1,"result":{}}"#).is_none());
    assert!(read_reply(2, r#"{"method":"note"}"#).is_none());
    match read_reply(2, "  {\"id\":2,\"result\":{\"x\":1}}\n") {
        Some(Ok(v)) => same(&v, r#"{"x":1}"#),
        other => panic!("{:?}", other),
    }
    assert!(matches!(read_reply(2, r#"{"id":2}"#), Some(Ok(Json::Null))));
    match read_reply(2, r#"{"id":2,"error":{"code":-1}}"#) {
        Some(Err(e)) => assert_eq!(e, r#"MCP 错误：{"code":-1}"#),
        other => panic!("{:?}", other),
    }
}

#[test]
fn waiting_comes_to_an_end() {
    let told = |h: Heard| match hear(2, &h) {
        Some(Err(e)) => e,
        other => panic!("{:?}", other),
    };
    assert_eq!(told(Heard::Late), "MCP 响应超时（20s）");
    assert_eq!(told(Heard::Closed), "MCP server 提前退出");
    assert_eq!(told(Heard::Broken("eof".to_string())), "MCP 读取失败：eof");
    assert!(hear(2, &Heard::Line("log".to_string())).is_none());
    assert!(matches!(hear(2, &Heard::Line(r#"{"id":2}"#.to_string())), Some(Ok(Json::Null))));
    assert_eq!(write_error("x"), "MCP 写入失败：x");
}

#[test]
fn results_are_told() {
    let v = read(r#"{"content":[{"type":"text","text":"a"},{"type":"image"},{"type":"text","text":"b"}]}"#);
    assert_eq!(content_text(&v), "a\nb");
    let v = read(r#"{"content":[{"type":"text","text":"a"}],"isError":true}"#);
    assert_eq!(content_text(&v), "[工具报错] a");
    let v = read(r#"{"content":[],"isError":true}"#);
    assert_eq!(content_text(&v), "{\n  \"content\": [],\n  \"isError\": true\n}");
}

#[test]
fn offers_are_listed() {
    let servers = parse_servers(r#"[{"name":"fs","command":"npx"}]"#);
    let v = read(
        r#"{"tools":[{"name":"read","description":"d","inputSchema":{"type":"x"}},{"name":""},{"name":"w"}]}"#,
    );
    let offers = list_tools(&servers[0], &v);
    assert_eq!(offers.len(), 2);
    assert_eq!((offers[0].server.as_str(), offers[0].name.as_str(), offers[0].desc.as_str()), ("fs", "read", "d"));
    same(&offers[0].params, r#"{"type":"x"}"#);
    same(&offers[1].params, r#"{"type":"object"}"#);
    assert_eq!(spawn_error(&servers[0], "gone"), "MCP server「fs」启动失败：gone");
    assert_eq!(madmodel::BASE, "https://madmodel.cs.tsinghua.edu.cn/v1");
    assert_eq!(madmodel::MODEL, "DeepSeek-V4-Flash-0731");
}
