//! What is read from the settings and from the servers, and what is sent to them.

use crate::json;
use crate::json::names;
use crate::mcp;
use crate::text;
use vstd::prelude::*;

verus! {

/// Servers are read one by one: those of two lists in a row are those of the one, then
/// those of the other.
pub proof fn law_servers_are_read_one_by_one(a: Seq<json::Tree>, b: Seq<json::Tree>)
    ensures
        mcp::servers_in(a + b) == mcp::servers_in(a) + mcp::servers_in(b),
    decreases b.len(),
{
    if b.len() == 0 {
        assert(a + b =~= a);
    } else {
        law_servers_are_read_one_by_one(a, b.drop_last());
        assert((a + b).drop_last() =~= a + b.drop_last());
        assert((a + b).last() == b.last());
        assert(mcp::servers_in(a + b) =~= mcp::servers_in(a) + mcp::servers_in(b));
    }
}

/// A server has the name and the command that are given for it, and its arguments and
/// variables that are texts, in order. An entry without a name or a command is none.
pub proof fn law_a_server_is_as_it_is_given(
    item: json::Tree,
    name: Seq<char>,
    command: Seq<char>,
    args: Seq<Seq<char>>,
    items: Seq<json::Tree>,
    env: Seq<(Seq<char>, Seq<char>)>,
    fields: Seq<(Seq<char>, json::Tree)>,
)
    requires
        items.len() == args.len(),
        forall|i: int| 0 <= i < items.len() ==> items[i] == json::Tree::Str(#[trigger] args[i]),
        fields.len() == env.len(),
        forall|i: int|
            0 <= i < fields.len() ==> fields[i] == ((#[trigger] env[i]).0, json::Tree::Str(env[i].1)),
        json::field(item, "args"@) == Some(json::Tree::Arr(items)) || (items.len() == 0
            && json::field(item, "args"@) is None),
        json::field(item, "env"@) == Some(json::Tree::Obj(fields)) || (fields.len() == 0
            && json::field(item, "env"@) is None),
    ensures
        json::field(item, "name"@) == Some(json::Tree::Str(name)) && name.len() > 0 && json::field(
            item,
            "command"@,
        ) == Some(json::Tree::Str(command)) && command.len() > 0 ==> mcp::servers_in(
            Seq::empty().push(item),
        ) == Seq::empty().push(mcp::ServerV { name, command, args, env }),
        json::field(item, "name"@) is None || json::field(item, "name"@) == Some(
            json::Tree::Str(Seq::empty()),
        ) || json::field(item, "command"@) is None || json::field(item, "command"@) == Some(
            json::Tree::Str(Seq::empty()),
        ) ==> mcp::servers_in(Seq::empty().push(item)).len() == 0,
{
    let one = Seq::<json::Tree>::empty().push(item);
    assert(one.drop_last() =~= Seq::empty());
    assert(mcp::servers_in(one.drop_last()) =~= Seq::empty());
    lemma_texts(items, args);
    lemma_fields(fields, env);
    assert(json::elements_of(json::field(item, "args"@)) =~= items);
    assert(mcp::env_in(json::field(item, "env"@)) =~= env);
}

proof fn lemma_texts(items: Seq<json::Tree>, ts: Seq<Seq<char>>)
    requires
        items.len() == ts.len(),
        forall|i: int| 0 <= i < items.len() ==> items[i] == json::Tree::Str(#[trigger] ts[i]),
    ensures
        mcp::texts_in(items) == ts,
    decreases items.len(),
{
    if items.len() > 0 {
        let us = ts.drop_last();
        assert forall|i: int| 0 <= i < us.len() implies items.drop_last()[i] == json::Tree::Str(
            #[trigger] us[i],
        ) by {
            assert(us[i] == ts[i]);
        }
        lemma_texts(items.drop_last(), us);
        assert(items.last() == json::Tree::Str(ts[ts.len() - 1]));
        assert(us.push(ts.last()) =~= ts);
    } else {
        assert(ts =~= Seq::empty());
    }
}

proof fn lemma_fields(fields: Seq<(Seq<char>, json::Tree)>, env: Seq<(Seq<char>, Seq<char>)>)
    requires
        fields.len() == env.len(),
        forall|i: int|
            0 <= i < fields.len() ==> fields[i] == ((#[trigger] env[i]).0, json::Tree::Str(env[i].1)),
    ensures
        mcp::text_fields(fields) == env,
    decreases fields.len(),
{
    if fields.len() > 0 {
        let e = env.drop_last();
        assert forall|i: int| 0 <= i < e.len() implies fields.drop_last()[i] == (
            (#[trigger] e[i]).0,
            json::Tree::Str(e[i].1),
        ) by {
            assert(e[i] == env[i]);
        }
        lemma_fields(fields.drop_last(), e);
        assert(fields.last() == (env[env.len() - 1].0, json::Tree::Str(env[env.len() - 1].1)));
        assert(e.push(env.last()) =~= env);
    } else {
        assert(env =~= Seq::empty());
    }
}

/// The servers are those of the list that the setting is, as JSON; a setting that is
/// blank, or no JSON, names none.
pub proof fn law_servers_are_those_of_the_setting(raw: Seq<char>, items: Seq<json::Tree>)
    ensures
        text::trimmed(raw).len() == 0 ==> mcp::servers_named(raw).len() == 0,
        json::json_read(text::trimmed(raw)) is None ==> mcp::servers_named(raw).len() == 0,
        text::trimmed(raw).len() > 0 && json::json_read(text::trimmed(raw)) == Some(
            json::Tree::Arr(items),
        ) ==> mcp::servers_named(raw) == mcp::servers_in(items),
{
}

/// A character that may stand in the name of a tool.
pub open spec fn may_stand(c: char) -> bool {
    ('a' <= c && c <= 'z') || ('A' <= c && c <= 'Z') || ('0' <= c && c <= '9') || c == '_'
}

/// The name of a server's tool is made of the two names, in that order; what may not
/// stand in a name is an underscore, and the rest is as it was.
pub proof fn law_the_full_name_keeps_both_names(server: Seq<char>, tool: Seq<char>)
    ensures
        ({
            let n = mcp::full_name(server, tool);
            &&& n.len() == server.len() + tool.len() + 5
            &&& n.take(4) == "mcp_"@
            &&& forall|i: int|
                0 <= i < server.len() ==> #[trigger] n[i + 4] == if may_stand(server[i]) {
                    server[i]
                } else {
                    '_'
                }
            &&& n[server.len() as int + 4] == '_'
            &&& forall|i: int|
                0 <= i < tool.len() ==> #[trigger] n[i + server.len() as int + 5] == if may_stand(tool[i]) {
                    tool[i]
                } else {
                    '_'
                }
        }),
{
    reveal_strlit("mcp_");
    reveal_strlit("_");
    let n = mcp::full_name(server, tool);
    assert(n.take(4) =~= "mcp_"@);
    assert("_"@[0] == '_');
}

/// A request goes out with its number, its method and its parameters.
pub proof fn law_a_request_says_what_it_asks(id: u64, method: Seq<char>, params: json::Tree)
    ensures
        ({
            let v = mcp::request_frame(id, method, params);
            &&& json::field(v, "jsonrpc"@) == Some(json::Tree::Str("2.0"@))
            &&& json::field(v, "id"@) == Some(json::Tree::Pos(id))
            &&& json::field(v, "method"@) == Some(json::Tree::Str(method))
            &&& json::field(v, "params"@) == Some(params)
        }),
        json::field(mcp::greeting(), "protocolVersion"@) == Some(json::Tree::Str("2024-11-05"@)),
        json::field(mcp::greeting(), "capabilities"@) == Some(json::Tree::Obj(Seq::empty())),
        json::field(mcp::greeting(), "clientInfo"@) matches Some(c) && json::field(c, "name"@)
            == Some(json::Tree::Str("OneTHU"@)) && json::field(c, "version"@) == Some(
            json::Tree::Str("1.0.0"@),
        ),
{
    names::lemma_apart();
    reveal_with_fuel(json::field_from, 5);
}

/// An answer counts where it has the number of the request: its error where it has one,
/// its result otherwise. A line that is none, or has another number, is waited past; a
/// server that is late, gone or broken ends the waiting.
pub proof fn law_the_answer_is_waited_for(id: u64, line: Seq<char>, msg: json::Tree, e: Seq<char>)
    requires
        json::json_read(text::trimmed(line)) == Some(msg),
    ensures
        json::field(msg, "id"@) == Some(json::Tree::Pos(id)) ==> mcp::heard_for(
            id,
            mcp::HeardV::Line(line),
        ) == Some(
            match json::field(msg, "error"@) {
                Some(x) => Err("MCP 错误："@ + json::json_text(x)),
                None => Ok(
                    match json::field(msg, "result"@) {
                        Some(r) => r,
                        None => json::Tree::Null,
                    },
                ),
            },
        ),
        json::field(msg, "id"@) != Some(json::Tree::Pos(id)) ==> mcp::heard_for(
            id,
            mcp::HeardV::Line(line),
        ) is None,
        mcp::heard_for(id, mcp::HeardV::Late) == Some(
            Err::<json::Tree, Seq<char>>("MCP 响应超时（20s）"@),
        ),
        mcp::heard_for(id, mcp::HeardV::Closed) == Some(
            Err::<json::Tree, Seq<char>>("MCP server 提前退出"@),
        ),
        mcp::heard_for(id, mcp::HeardV::Broken(e)) == Some(
            Err::<json::Tree, Seq<char>>("MCP 读取失败："@ + e),
        ),
{
}

/// The item is a piece of text.
pub open spec fn is_text(item: json::Tree, t: Seq<char>) -> bool {
    json::field(item, "type"@) == Some(json::Tree::Str("text"@)) && json::field(item, "text"@)
        == Some(json::Tree::Str(t))
}

/// What a tool says is its pieces of text, line by line; pieces of another sort are
/// passed over.
pub proof fn law_a_result_is_its_lines(items: Seq<json::Tree>, ts: Seq<Seq<char>>)
    requires
        items.len() == ts.len(),
        forall|i: int| 0 <= i < items.len() ==> is_text(items[i], #[trigger] ts[i]) && ts[i].len() > 0,
    ensures
        mcp::content_lines(items) == text::joined(ts, "\n"@),
        ts.len() > 0 ==> mcp::content_lines(items).len() > 0,
    decreases items.len(),
{
    if items.len() > 0 {
        let us = ts.drop_last();
        assert forall|i: int| 0 <= i < us.len() implies is_text(
            items.drop_last()[i],
            #[trigger] us[i],
        ) && us[i].len() > 0 by {
            assert(us[i] == ts[i]);
        }
        law_a_result_is_its_lines(items.drop_last(), us);
        assert(is_text(items.last(), ts[ts.len() - 1]));
        if us.len() == 0 {
            assert(ts.len() == 1);
        }
    }
}

/// A piece that is not one of text changes nothing.
pub proof fn law_other_pieces_are_passed_over(
    a: Seq<json::Tree>,
    x: json::Tree,
    b: Seq<json::Tree>,
)
    requires
        json::field(x, "type"@) != Some(json::Tree::Str("text"@)),
    ensures
        mcp::content_lines(a.push(x) + b) == mcp::content_lines(a + b),
    decreases b.len(),
{
    if b.len() == 0 {
        assert(a.push(x) + b =~= a.push(x));
        assert(a + b =~= a);
        assert(a.push(x).drop_last() =~= a);
    } else {
        law_other_pieces_are_passed_over(a, x, b.drop_last());
        assert((a.push(x) + b).drop_last() =~= a.push(x) + b.drop_last());
        assert((a + b).drop_last() =~= a + b.drop_last());
        assert((a.push(x) + b).last() == b.last());
        assert((a + b).last() == b.last());
    }
}

/// A result with text is that text, marked where the tool says that it failed; one
/// without is told whole.
pub proof fn law_a_failed_result_is_marked(result: json::Tree, items: Seq<json::Tree>)
    requires
        json::field(result, "content"@) == Some(json::Tree::Arr(items)),
    ensures
        ({
            let lines = mcp::content_lines(items);
            &&& lines.len() == 0 ==> mcp::result_text(result) == json::json_pretty(result)
            &&& lines.len() > 0 && json::field(result, "isError"@) == Some(json::Tree::Bool(true))
                ==> mcp::result_text(result) == "[工具报错] "@ + lines
            &&& lines.len() > 0 && json::field(result, "isError"@) != Some(json::Tree::Bool(true))
                ==> mcp::result_text(result) == lines
        }),
{
}

/// A tool that a server offers has the name, the description and the parameters that the
/// server gives, none where it has no name; the tools come in order.
pub proof fn law_an_offer_is_as_it_is_given(
    server: Seq<char>,
    before: Seq<json::Tree>,
    t: json::Tree,
    name: Seq<char>,
)
    ensures
        json::field(t, "name"@) == Some(json::Tree::Str(name)) && name.len() > 0 ==> {
            let all = mcp::offers_in(server, before.push(t));
            &&& all.drop_last() == mcp::offers_in(server, before)
            &&& all.len() == mcp::offers_in(server, before).len() + 1
            &&& all.last().server == server
            &&& all.last().name == name
            &&& all.last().desc == match json::field(t, "description"@) {
                Some(json::Tree::Str(x)) => x,
                _ => Seq::empty(),
            }
            &&& json::field(t, "inputSchema"@) matches Some(p) ==> all.last().params == p
            &&& json::field(t, "inputSchema"@) is None ==> json::field(
                all.last().params,
                "type"@,
            ) == Some(json::Tree::Str("object"@))
        },
        json::field(t, "name"@) is None ==> mcp::offers_in(server, before.push(t))
            == mcp::offers_in(server, before),
        mcp::offers_in(server, Seq::empty()).len() == 0,
{
    reveal_with_fuel(json::field_from, 2);
    assert(before.push(t).drop_last() =~= before);
    let all = mcp::offers_in(server, before.push(t));
    if json::field(t, "name"@) == Some(json::Tree::Str(name)) && name.len() > 0 {
        assert(all.drop_last() =~= mcp::offers_in(server, before));
    }
}

/// An argument or a variable that is no text is passed over.
pub proof fn law_only_texts_are_passed_on(
    items: Seq<json::Tree>,
    fields: Seq<(Seq<char>, json::Tree)>,
    key: Seq<char>,
    x: json::Tree,
)
    requires
        !(x is Str),
    ensures
        mcp::texts_in(items.push(x)) == mcp::texts_in(items),
        mcp::text_fields(fields.push((key, x))) == mcp::text_fields(fields),
{
    assert(items.push(x).drop_last() =~= items);
    assert(fields.push((key, x)).drop_last() =~= fields);
}

} // verus!
