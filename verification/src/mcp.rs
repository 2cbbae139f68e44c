//! The model context protocol, client side: which servers the settings name, what is
//! sent to one, and what its lines say. Each call starts its server anew; running the
//! server is not here.

use crate::json;
use crate::json::{Json, Rec};
use crate::text;
use vstd::prelude::*;

pub mod laws;

verus! {

/// A server, as the settings describe it.
#[derive(Debug)]
pub struct McpServerDef {
    pub name: String,
    pub command: String,
    pub args: Vec<String>,
    pub env: Vec<(String, String)>,
}

pub struct ServerV {
    pub name: Seq<char>,
    pub command: Seq<char>,
    pub args: Seq<Seq<char>>,
    pub env: Seq<(Seq<char>, Seq<char>)>,
}

pub open spec fn env_of(v: Seq<(String, String)>) -> Seq<(Seq<char>, Seq<char>)> {
    v.map_values(|e: (String, String)| (e.0@, e.1@))
}

impl View for McpServerDef {
    type V = ServerV;

    open spec fn view(&self) -> ServerV {
        ServerV {
            name: self.name@,
            command: self.command@,
            args: text::texts(self.args@),
            env: env_of(self.env@),
        }
    }
}

pub open spec fn servers_of(v: Seq<McpServerDef>) -> Seq<ServerV> {
    v.map_values(|d: McpServerDef| d@)
}

/// A tool that a server offers.
#[derive(Debug)]
pub struct McpToolDef {
    pub server: String,
    pub name: String,
    pub desc: String,
    pub params: Json,
}

pub struct OfferV {
    pub server: Seq<char>,
    pub name: Seq<char>,
    pub desc: Seq<char>,
    pub params: json::Tree,
}

impl View for McpToolDef {
    type V = OfferV;

    open spec fn view(&self) -> OfferV {
        OfferV { server: self.server@, name: self.name@, desc: self.desc@, params: self.params@ }
    }
}

pub open spec fn offers_of(v: Seq<McpToolDef>) -> Seq<OfferV> {
    v.map_values(|d: McpToolDef| d@)
}

/// The texts among some values, in their order.
pub open spec fn texts_in(items: Seq<json::Tree>) -> Seq<Seq<char>>
    decreases items.len(),
{
    if items.len() == 0 {
        Seq::empty()
    } else {
        match json::str_of(Some(items.last())) {
            Some(s) => texts_in(items.drop_last()).push(s),
            None => texts_in(items.drop_last()),
        }
    }
}

/// The fields that hold a text, in their order.
pub open spec fn text_fields(fields: Seq<(Seq<char>, json::Tree)>) -> Seq<(Seq<char>, Seq<char>)>
    decreases fields.len(),
{
    if fields.len() == 0 {
        Seq::empty()
    } else {
        match json::str_of(Some(fields.last().1)) {
            Some(s) => text_fields(fields.drop_last()).push((fields.last().0, s)),
            None => text_fields(fields.drop_last()),
        }
    }
}

pub open spec fn env_in(v: Option<json::Tree>) -> Seq<(Seq<char>, Seq<char>)> {
    match v {
        Some(json::Tree::Obj(fields)) => text_fields(fields),
        _ => Seq::empty(),
    }
}

/// The server that an entry describes: it has a name and a command.
pub open spec fn server_in(item: json::Tree) -> Option<ServerV> {
    let name = json::text_at(item, "name"@);
    let command = json::text_at(item, "command"@);
    if name.len() == 0 || command.len() == 0 {
        None
    } else {
        Some(
            ServerV {
                name,
                command,
                args: texts_in(json::elements_of(json::field(item, "args"@))),
                env: env_in(json::field(item, "env"@)),
            },
        )
    }
}

/// The servers that some entries describe; an entry that describes none is passed over.
pub open spec fn servers_in(items: Seq<json::Tree>) -> Seq<ServerV>
    decreases items.len(),
{
    if items.len() == 0 {
        Seq::empty()
    } else {
        match server_in(items.last()) {
            Some(d) => servers_in(items.drop_last()).push(d),
            None => servers_in(items.drop_last()),
        }
    }
}

/// The servers that a setting names: the entries of a JSON array.
pub open spec fn servers_named(raw: Seq<char>) -> Seq<ServerV> {
    let t = text::trimmed(raw);
    if t.len() == 0 {
        Seq::empty()
    } else {
        match json::json_read(t) {
            Some(v) => servers_in(json::elements(v)),
            None => Seq::empty(),
        }
    }
}

fn read_texts(items: &Vec<Json>) -> (r: Vec<String>)
    ensures
        text::texts(r@) == texts_in(json::trees(items@)),
{
    let ghost all = json::trees(items@);
    let mut out: Vec<String> = Vec::new();
    let mut i: usize = 0;
    assert(all.take(0) =~= Seq::empty());
    assert(text::texts(out@) =~= Seq::empty());
    while i < items.len()
        invariant
            i <= items@.len(),
            all == json::trees(items@),
            text::texts(out@) == texts_in(all.take(i as int)),
        decreases items@.len() - i,
    {
        assert(all.take(i + 1).drop_last() =~= all.take(i as int));
        assert(all.take(i + 1).last() == items@[i as int]@);
        if let Some(s) = items[i].as_str() {
            let ghost before = out@;
            out.push(s.to_owned());
            assert(text::texts(out@) =~= text::texts(before).push(s@));
        }
        i += 1;
    }
    assert(all.take(all.len() as int) =~= all);
    out
}

fn read_env(v: Option<&Json>) -> (r: Vec<(String, String)>)
    ensures
        env_of(r@) == env_in(
            match v {
                Some(x) => Some(x@),
                None => None,
            },
        ),
{
    let mut out: Vec<(String, String)> = Vec::new();
    assert(env_of(out@) =~= Seq::empty());
    if let Some(Json::Record(fields)) = v {
        proof {
            json::lemma_record(*fields);
        }
        let ghost all = json::pairs(fields@);
        let mut i: usize = 0;
        assert(all.take(0) =~= Seq::empty());
        while i < fields.len()
            invariant
                i <= fields@.len(),
                all == json::pairs(fields@),
                env_of(out@) == text_fields(all.take(i as int)),
            decreases fields@.len() - i,
        {
            assert(all.take(i + 1).drop_last() =~= all.take(i as int));
            assert(all.take(i + 1).last() == (fields@[i as int].0@, fields@[i as int].1@));
            if let Some(s) = fields[i].1.as_str() {
                let ghost before = out@;
                let name = fields[i].0.clone();
                out.push((name, s.to_owned()));
                assert(env_of(out@) =~= env_of(before).push((name@, s@)));
            }
            i += 1;
        }
        assert(all.take(all.len() as int) =~= all);
    }
    out
}

fn read_server(item: &Json) -> (r: Option<McpServerDef>)
    ensures
        (match r {
            Some(d) => Some(d@),
            None => None,
        }) == server_in(item@),
{
    let name = item.text("name");
    let command = item.text("command");
    if name.as_str().is_empty() || command.as_str().is_empty() {
        return None;
    }
    let args = read_texts(&item.items_at("args"));
    let env = read_env(item.get("env"));
    Some(McpServerDef { name, command, args, env })
}

/// The servers that some entries describe.
pub fn read_servers(items: &Vec<Json>) -> (r: Vec<McpServerDef>)
    ensures
        servers_of(r@) == servers_in(json::trees(items@)),
{
    let ghost all = json::trees(items@);
    let mut out: Vec<McpServerDef> = Vec::new();
    let mut i: usize = 0;
    assert(all.take(0) =~= Seq::empty());
    assert(servers_of(out@) =~= Seq::empty());
    while i < items.len()
        invariant
            i <= items@.len(),
            all == json::trees(items@),
            servers_of(out@) == servers_in(all.take(i as int)),
        decreases items@.len() - i,
    {
        assert(all.take(i + 1).drop_last() =~= all.take(i as int));
        assert(all.take(i + 1).last() == items@[i as int]@);
        if let Some(d) = read_server(&items[i]) {
            let ghost before = out@;
            out.push(d);
            assert(servers_of(out@) =~= servers_of(before).push(d@));
        }
        i += 1;
    }
    assert(all.take(all.len() as int) =~= all);
    out
}

/// The servers that the setting `mcpServers` names. What is no JSON array names none.
pub fn parse_servers(raw: &str) -> (r: Vec<McpServerDef>)
    ensures
        servers_of(r@) == servers_named(raw@),
{
    let t = text::trim(raw);
    if t.as_str().is_empty() {
        let r: Vec<McpServerDef> = Vec::new();
        assert(servers_of(r@) =~= Seq::empty());
        return r;
    }
    match json::parse(t.as_str()) {
        Some(v) => read_servers(&v.items()),
        None => {
            let r: Vec<McpServerDef> = Vec::new();
            assert(servers_of(r@) =~= Seq::empty());
            r
        },
    }
}

/// A character that a tool's name may have; another one becomes an underscore.
pub open spec fn safe_char(c: char) -> char {
    if ('a' <= c && c <= 'z') || ('A' <= c && c <= 'Z') || text::is_digit(c) || c == '_' {
        c
    } else {
        '_'
    }
}

pub open spec fn safe(s: Seq<char>) -> Seq<char> {
    s.map_values(|c: char| safe_char(c))
}

pub open spec fn full_name(server: Seq<char>, tool: Seq<char>) -> Seq<char> {
    "mcp_"@ + safe(server) + "_"@ + safe(tool)
}

fn clean(s: &str) -> (r: String)
    ensures
        r@ == safe(s@),
{
    let v = text::chars_of(s);
    let mut out: Vec<char> = Vec::new();
    let mut i: usize = 0;
    while i < v.len()
        invariant
            i <= v@.len(),
            v@ == s@,
            out@ == safe(s@).take(i as int),
        decreases v@.len() - i,
    {
        let c = v[i];
        let ok = ('a' <= c && c <= 'z') || ('A' <= c && c <= 'Z') || ('0' <= c && c <= '9') || c
            == '_';
        out.push(if ok { c } else { '_' });
        assert(safe(s@).take(i + 1) =~= safe(s@).take(i as int).push(safe_char(c)));
        i += 1;
    }
    assert(safe(s@).take(s@.len() as int) =~= safe(s@));
    text::string_of(&out)
}

/// The full name of a server's tool.
pub fn tool_full_name(server: &str, tool: &str) -> (r: String)
    ensures
        r@ == full_name(server@, tool@),
{
    let mut s = text::cat3("mcp_", clean(server).as_str(), "_");
    s.append(clean(tool).as_str());
    s
}

pub open spec fn request_frame(id: u64, method: Seq<char>, params: json::Tree) -> json::Tree {
    json::Tree::Obj(
        json::no_fields().push(("jsonrpc"@, json::Tree::Str("2.0"@))).push(
            ("id"@, json::Tree::Pos(id)),
        ).push(("method"@, json::Tree::Str(method))).push(("params"@, params)),
    )
}

/// A request to a server.
pub fn request(id: u64, method: &str, params: Json) -> (r: Json)
    ensures
        r@ == request_frame(id, method@, params@),
{
    Rec::new().text("jsonrpc", "2.0").pos("id", id).text("method", method).with(
        "params",
        params,
    ).done()
}

pub open spec fn greeting() -> json::Tree {
    json::Tree::Obj(
        json::no_fields().push(("protocolVersion"@, json::Tree::Str("2024-11-05"@))).push(
            ("capabilities"@, json::Tree::Obj(json::no_fields())),
        ).push(
            (
                "clientInfo"@,
                json::Tree::Obj(
                    json::no_fields().push(("name"@, json::Tree::Str("OneTHU"@))).push(
                        ("version"@, json::Tree::Str("1.0.0"@)),
                    ),
                ),
            ),
        ),
    )
}

/// The request that opens a conversation.
pub fn initialize() -> (r: Json)
    ensures
        r@ == request_frame(1, "initialize"@, greeting()),
{
    let client = Rec::new().text("name", "OneTHU").text("version", "1.0.0").done();
    let params = Rec::new().text("protocolVersion", "2024-11-05").with(
        "capabilities",
        Rec::new().done(),
    ).with("clientInfo", client).done();
    request(1, "initialize", params)
}

/// The notification that follows the opening; it has no number and no answer.
pub fn initialized() -> (r: Json)
    ensures
        r@ == json::Tree::Obj(
            json::no_fields().push(("jsonrpc"@, json::Tree::Str("2.0"@))).push(
                ("method"@, json::Tree::Str("notifications/initialized"@)),
            ),
        ),
{
    Rec::new().text("jsonrpc", "2.0").text("method", "notifications/initialized").done()
}

/// The request for a server's tools.
pub fn list_request() -> (r: Json)
    ensures
        r@ == request_frame(2, "tools/list"@, json::Tree::Obj(json::no_fields())),
{
    request(2, "tools/list", Rec::new().done())
}

/// The request that runs a tool.
pub fn call_request(tool: &str, args: &Json) -> (r: Json)
    ensures
        r@ == request_frame(
            3,
            "tools/call"@,
            json::Tree::Obj(
                json::no_fields().push(("name"@, json::Tree::Str(tool@))).push(
                    ("arguments"@, args@),
                ),
            ),
        ),
{
    request(3, "tools/call", Rec::new().text("name", tool).with("arguments", args.clone()).done())
}

/// What a message says to the request of that number: nothing where it is not its
/// answer.
pub open spec fn answer_to(id: u64, msg: json::Tree) -> Option<Result<json::Tree, Seq<char>>> {
    if json::u64_of(json::field(msg, "id"@)) == Some(id) {
        match json::field(msg, "error"@) {
            Some(e) => Some(Err("MCP 错误："@ + json::json_text(e))),
            None => Some(Ok(json::value_at(msg, "result"@))),
        }
    } else {
        None
    }
}

pub open spec fn answer_of(r: Option<Result<Json, String>>) -> Option<Result<json::Tree, Seq<char>>> {
    match r {
        Some(Ok(v)) => Some(Ok(v@)),
        Some(Err(e)) => Some(Err(e@)),
        None => None,
    }
}

/// What a message says to the request of that number.
pub fn read_answer(id: u64, msg: &Json) -> (r: Option<Result<Json, String>>)
    ensures
        answer_of(r) == answer_to(id, msg@),
{
    let mine = match msg.get("id") {
        Some(v) => match v.as_u64() {
            Some(n) => n == id,
            None => false,
        },
        None => false,
    };
    if !mine {
        return None;
    }
    match msg.get("error") {
        Some(e) => Some(Err(text::cat("MCP 错误：", json::print(e).as_str()))),
        None => Some(Ok(msg.value("result"))),
    }
}

/// What a line of a server says to the request of that number. A line that is no JSON
/// is the server's own log and says nothing.
pub fn read_reply(id: u64, line: &str) -> (r: Option<Result<Json, String>>)
    ensures
        answer_of(r) == (match json::json_read(text::trimmed(line@)) {
            Some(msg) => answer_to(id, msg),
            None => None,
        }),
{
    match json::parse(text::trim(line).as_str()) {
        Some(msg) => read_answer(id, &msg),
        None => None,
    }
}

/// What came of waiting for a line of a server.
#[derive(Debug)]
pub enum Heard {
    /// The time was up.
    Late,
    /// The server has ended.
    Closed,
    /// Reading failed, for this reason.
    Broken(String),
    Line(String),
}

pub enum HeardV {
    Late,
    Closed,
    Broken(Seq<char>),
    Line(Seq<char>),
}

impl View for Heard {
    type V = HeardV;

    open spec fn view(&self) -> HeardV {
        match self {
            Heard::Late => HeardV::Late,
            Heard::Closed => HeardV::Closed,
            Heard::Broken(e) => HeardV::Broken(e@),
            Heard::Line(l) => HeardV::Line(l@),
        }
    }
}

/// What a request comes to once this was heard; nothing where the wait goes on.
pub open spec fn heard_for(id: u64, h: HeardV) -> Option<Result<json::Tree, Seq<char>>> {
    match h {
        HeardV::Late => Some(Err("MCP 响应超时（20s）"@)),
        HeardV::Closed => Some(Err("MCP server 提前退出"@)),
        HeardV::Broken(e) => Some(Err("MCP 读取失败："@ + e)),
        HeardV::Line(l) => match json::json_read(text::trimmed(l)) {
            Some(msg) => answer_to(id, msg),
            None => None,
        },
    }
}

/// What a request comes to once this was heard; nothing where the wait goes on.
pub fn hear(id: u64, h: &Heard) -> (r: Option<Result<Json, String>>)
    ensures
        answer_of(r) == heard_for(id, h@),
{
    match h {
        Heard::Late => Some(Err("MCP 响应超时（20s）".to_owned())),
        Heard::Closed => Some(Err("MCP server 提前退出".to_owned())),
        Heard::Broken(e) => Some(Err(text::cat("MCP 读取失败：", e.as_str()))),
        Heard::Line(l) => read_reply(id, l.as_str()),
    }
}

/// What is said where nothing can be sent to a server.
pub fn write_error(reason: &str) -> (r: String)
    ensures
        r@ == "MCP 写入失败："@ + reason@,
{
    text::cat("MCP 写入失败：", reason)
}

/// The text of a piece of content, where it is one of text.
pub open spec fn piece_text(c: json::Tree) -> Option<Seq<char>> {
    if json::str_of(json::field(c, "type"@)) == Some("text"@) {
        json::str_of(json::field(c, "text"@))
    } else {
        None
    }
}

/// The texts of some content, one line after another. An empty text so far takes no
/// line break.
pub open spec fn content_lines(items: Seq<json::Tree>) -> Seq<char>
    decreases items.len(),
{
    if items.len() == 0 {
        Seq::empty()
    } else {
        let before = content_lines(items.drop_last());
        match piece_text(items.last()) {
            Some(t) => if before.len() > 0 {
                before + "\n"@ + t
            } else {
                t
            },
            None => before,
        }
    }
}

/// What the result of a tool says: its texts, marked where the tool failed; the whole
/// of it where it has none.
pub open spec fn result_text(result: json::Tree) -> Seq<char> {
    let out = content_lines(json::elements_of(json::field(result, "content"@)));
    if out.len() == 0 {
        json::json_pretty(result)
    } else if json::bool_of(json::field(result, "isError"@)) == Some(true) {
        "[工具报错] "@ + out
    } else {
        out
    }
}

fn read_piece(c: &Json) -> (r: Option<String>)
    ensures
        text::option_text(r) == piece_text(c@),
{
    match c.text_option("type") {
        Some(k) => if text::same(k.as_str(), "text") {
            c.text_option("text")
        } else {
            None
        },
        None => None,
    }
}

fn read_lines(items: &Vec<Json>) -> (r: String)
    ensures
        r@ == content_lines(json::trees(items@)),
{
    let ghost all = json::trees(items@);
    let mut out = String::new();
    let mut i: usize = 0;
    assert(all.take(0) =~= Seq::empty());
    while i < items.len()
        invariant
            i <= items@.len(),
            all == json::trees(items@),
            out@ == content_lines(all.take(i as int)),
        decreases items@.len() - i,
    {
        assert(all.take(i + 1).drop_last() =~= all.take(i as int));
        assert(all.take(i + 1).last() == items@[i as int]@);
        if let Some(t) = read_piece(&items[i]) {
            if out.as_str().is_empty() {
                out = t;
            } else {
                out.append("\n");
                out.append(t.as_str());
            }
        }
        i += 1;
    }
    assert(all.take(all.len() as int) =~= all);
    out
}

/// What the result of a tool says.
pub fn content_text(result: &Json) -> (r: String)
    ensures
        r@ == result_text(result@),
{
    let out = read_lines(&result.items_at("content"));
    if out.as_str().is_empty() {
        return json::print_pretty(result);
    }
    let failed = match result.get("isError") {
        Some(v) => match v.as_bool() {
            Some(b) => b,
            None => false,
        },
        None => false,
    };
    if failed {
        text::cat("[工具报错] ", out.as_str())
    } else {
        out
    }
}

/// The tool that an entry of a server's list describes: it has a name.
pub open spec fn offer_in(server: Seq<char>, t: json::Tree) -> Option<OfferV> {
    let name = json::text_at(t, "name"@);
    if name.len() == 0 {
        None
    } else {
        Some(
            OfferV {
                server,
                name,
                desc: json::text_at(t, "description"@),
                params: match json::field(t, "inputSchema"@) {
                    Some(p) => p,
                    None => json::Tree::Obj(
                        json::no_fields().push(("type"@, json::Tree::Str("object"@))),
                    ),
                },
            },
        )
    }
}

/// The tools that a server's list describes.
pub open spec fn offers_in(server: Seq<char>, items: Seq<json::Tree>) -> Seq<OfferV>
    decreases items.len(),
{
    if items.len() == 0 {
        Seq::empty()
    } else {
        match offer_in(server, items.last()) {
            Some(d) => offers_in(server, items.drop_last()).push(d),
            None => offers_in(server, items.drop_last()),
        }
    }
}

fn read_offer(server: &str, t: &Json) -> (r: Option<McpToolDef>)
    ensures
        (match r {
            Some(d) => Some(d@),
            None => None,
        }) == offer_in(server@, t@),
{
    let name = t.text("name");
    if name.as_str().is_empty() {
        return None;
    }
    let params = match t.get("inputSchema") {
        Some(p) => p.clone(),
        None => Rec::new().text("type", "object").done(),
    };
    Some(McpToolDef { server: server.to_owned(), name, desc: t.text("description"), params })
}

/// The tools that a server offers, out of its answer to the request for them.
pub fn list_tools(def: &McpServerDef, result: &Json) -> (r: Vec<McpToolDef>)
    ensures
        offers_of(r@) == offers_in(
            def.name@,
            json::elements_of(json::field(result@, "tools"@)),
        ),
{
    let items = result.items_at("tools");
    let ghost all = json::trees(items@);
    let mut out: Vec<McpToolDef> = Vec::new();
    let mut i: usize = 0;
    assert(all.take(0) =~= Seq::empty());
    assert(offers_of(out@) =~= Seq::empty());
    while i < items.len()
        invariant
            i <= items@.len(),
            all == json::trees(items@),
            offers_of(out@) == offers_in(def.name@, all.take(i as int)),
        decreases items@.len() - i,
    {
        assert(all.take(i + 1).drop_last() =~= all.take(i as int));
        assert(all.take(i + 1).last() == items@[i as int]@);
        if let Some(d) = read_offer(def.name.as_str(), &items[i]) {
            let ghost before = out@;
            out.push(d);
            assert(offers_of(out@) =~= offers_of(before).push(d@));
        }
        i += 1;
    }
    assert(all.take(all.len() as int) =~= all);
    out
}

/// What is said of a server that does not start.
pub fn spawn_error(def: &McpServerDef, reason: &str) -> (r: String)
    ensures
        r@ == "MCP server「"@ + def.name@ + "」启动失败："@ + reason@,
{
    let mut s = text::cat3("MCP server「", def.name.as_str(), "」启动失败：");
    s.append(reason);
    s
}

/// A full name holds only letters, digits and underscores of ASCII, so a model can
/// call the tool by it.
pub proof fn law_full_name_is_safe(server: Seq<char>, tool: Seq<char>, i: int)
    requires
        0 <= i < full_name(server, tool).len(),
    ensures
        safe_char(full_name(server, tool)[i]) == full_name(server, tool)[i],
{
    reveal_strlit("mcp_");
    reveal_strlit("_");
    let s = safe(server);
    let t = safe(tool);
    let a = "mcp_"@ + s;
    let b = a + "_"@;
    if i < 4 {
        assert(full_name(server, tool)[i] == "mcp_"@[i]);
    } else if i < a.len() {
        assert(full_name(server, tool)[i] == safe_char(server[i - 4]));
    } else if i < b.len() {
        assert(full_name(server, tool)[i] == "_"@[i - a.len()]);
    } else {
        assert(full_name(server, tool)[i] == safe_char(tool[i - b.len()]));
    }
}

/// One entry that describes no server does not keep the others out.
pub proof fn law_bad_entry_is_passed_over(a: Seq<json::Tree>, bad: json::Tree, b: Seq<json::Tree>)
    requires
        server_in(bad) is None,
    ensures
        servers_in(a.push(bad) + b) == servers_in(a + b),
    decreases b.len(),
{
    if b.len() == 0 {
        assert(a.push(bad) + b =~= a.push(bad));
        assert(a + b =~= a);
        assert(a.push(bad).drop_last() =~= a);
    } else {
        law_bad_entry_is_passed_over(a, bad, b.drop_last());
        assert((a.push(bad) + b).drop_last() =~= a.push(bad) + b.drop_last());
        assert((a + b).drop_last() =~= a + b.drop_last());
        assert((a.push(bad) + b).last() == b.last());
        assert((a + b).last() == b.last());
    }
}

/// The answer that carries a request's number is its answer; one with another number
/// is not.
pub proof fn law_answers_go_by_number(id: u64, other: u64, result: json::Tree)
    ensures
        answer_to(id, json::Tree::Obj(
            json::no_fields().push(("id"@, json::Tree::Pos(other))).push(("result"@, result)),
        )) == (if id == other {
            Some(Ok::<json::Tree, Seq<char>>(result))
        } else {
            None
        }),
{
    reveal_strlit("id");
    reveal_strlit("error");
    reveal_strlit("result");
    assert("id"@.len() == 2 && "error"@.len() == 5 && "result"@.len() == 6);
    reveal_with_fuel(json::field_from, 3);
}

} // verus!
