//! What the panel is told of the conversations, and how results and errors are told.

use crate::agent;
use crate::config::Config;
use crate::json;
use crate::json::names;
use crate::session;
use crate::text;
use vstd::prelude::*;

verus! {

/// The messages of the user.
pub open spec fn of_user() -> spec_fn(session::MsgV) -> bool {
    |m: session::MsgV| m.role == "user"@
}

/// The object tells of the conversation: its name and title, when it was last used, how
/// many messages of the user it has, and what it cost.
pub open spec fn lists(v: json::Tree, s: session::SessionV) -> bool {
    &&& json::field(v, "id"@) == Some(json::Tree::Str(s.id))
    &&& json::field(v, "title"@) == Some(json::Tree::Str(s.title))
    &&& json::field(v, "updatedAt"@) == Some(json::Tree::Pos(s.updated_at))
    &&& json::field(v, "messages"@) == Some(
        json::Tree::Pos(s.messages.filter(of_user()).len() as u64),
    )
    &&& json::field(v, "costUsd"@) == Some(s.cost_usd)
}

/// The value lists the conversations, in order.
pub open spec fn lists_all(v: Option<json::Tree>, s: Seq<session::SessionV>) -> bool {
    v matches Some(json::Tree::Arr(rows)) && rows.len() == s.len() && forall|i: int|
        0 <= i < rows.len() ==> lists(#[trigger] rows[i], s[i])
}

proof fn lemma_asked(msgs: Seq<session::MsgV>)
    ensures
        agent::asked(msgs) == msgs.filter(of_user()).len(),
    decreases msgs.len(),
{
    reveal(Seq::filter);
    if msgs.len() > 0 {
        lemma_asked(msgs.drop_last());
    }
}

proof fn lemma_listing(s: Seq<session::SessionV>)
    ensures
        lists_all(Some(agent::listing(s)), s),
{
    names::lemma_apart();
    reveal_with_fuel(json::field_from, 6);
    let rows = json::elements(agent::listing(s));
    assert forall|i: int| 0 <= i < rows.len() implies lists(#[trigger] rows[i], s[i]) by {
        lemma_asked(s[i].messages);
        assert(rows[i] == agent::listed(s[i]));
    }
}

/// The panel is told all conversations, in order, and which one is active; after a new
/// one, a switch, an import and a deletion too.
pub proof fn law_the_panel_is_told_all_conversations(
    s: session::StoreV,
    id: Seq<char>,
    title: Seq<char>,
    ok: bool,
)
    ensures
        ({
            let v = agent::sessions_reply(ok, s);
            &&& json::field(v, "type"@) == Some(json::Tree::Str("sessions"@))
            &&& json::field(v, "ok"@) == Some(json::Tree::Bool(ok))
            &&& json::field(v, "active"@) == Some(json::Tree::Str(s.active))
            &&& lists_all(json::field(v, "sessions"@), s.sessions)
        }),
        ({
            let v = agent::session_reply(id, s);
            &&& json::field(v, "type"@) == Some(json::Tree::Str("session"@))
            &&& json::field(v, "ok"@) == Some(json::Tree::Bool(true))
            &&& json::field(v, "sessionId"@) == Some(json::Tree::Str(id))
            &&& lists_all(json::field(v, "sessions"@), s.sessions)
        }),
        ({
            let v = agent::switch_reply(ok, id, s);
            &&& json::field(v, "type"@) == Some(json::Tree::Str("session"@))
            &&& json::field(v, "ok"@) == Some(json::Tree::Bool(ok))
            &&& json::field(v, "sessionId"@) == Some(
                if ok {
                    json::Tree::Str(id)
                } else {
                    json::Tree::Null
                },
            )
            &&& lists_all(json::field(v, "sessions"@), s.sessions)
        }),
        ({
            let v = agent::import_reply(title, s);
            &&& json::field(v, "type"@) == Some(json::Tree::Str("session"@))
            &&& json::field(v, "ok"@) == Some(json::Tree::Bool(true))
            &&& json::field(v, "sessionId"@) == Some(json::Tree::Str(s.active))
            &&& json::field(v, "title"@) == Some(json::Tree::Str(title))
            &&& lists_all(json::field(v, "sessions"@), s.sessions)
        }),
{
    names::lemma_apart();
    reveal_with_fuel(json::field_from, 6);
    lemma_listing(s.sessions);
}

/// The report tells what all conversations used together and what that cost, and lists
/// the conversations.
pub proof fn law_the_report_tells_the_totals(s: session::StoreV)
    ensures
        ({
            let v = agent::usage_reply(s);
            &&& json::field(v, "type"@) == Some(json::Tree::Str("usage"@))
            &&& json::field(v, "ok"@) == Some(json::Tree::Bool(true))
            &&& lists_all(json::field(v, "sessions"@), s.sessions)
            &&& json::field(v, "totals"@) matches Some(t) && json::field(t, "prompt"@) == Some(
                json::Tree::Pos(s.totals.prompt),
            ) && json::field(t, "completion"@) == Some(json::Tree::Pos(s.totals.completion))
                && json::field(t, "calls"@) == Some(json::Tree::Pos(s.totals.calls))
                && json::field(t, "costUsd"@) == Some(s.totals_cost_usd)
        }),
{
    names::lemma_apart();
    reveal_with_fuel(json::field_from, 5);
    lemma_listing(s.sessions);
}

/// What is exported is the conversation that is named, or the active one where none is;
/// where there is no such conversation, that is told.
pub proof fn law_the_named_conversation_is_exported(
    s: session::StoreV,
    id: Seq<char>,
    written: Seq<char>,
    i: int,
)
    requires
        0 <= i <= s.sessions.len(),
        forall|k: int|
            0 <= k < i ==> (#[trigger] s.sessions[k]).id != if id.len() == 0 {
                s.active
            } else {
                id
            },
        i < s.sessions.len() ==> s.sessions[i].id == if id.len() == 0 {
            s.active
        } else {
            id
        },
    ensures
        ({
            let v = agent::export_reply(s, id, written);
            &&& json::field(v, "type"@) == Some(json::Tree::Str("export"@))
            &&& json::field(v, "ok"@) == Some(json::Tree::Bool(i < s.sessions.len()))
            &&& i < s.sessions.len() ==> json::field(v, "sessionId"@) == Some(
                json::Tree::Str(s.sessions[i].id),
            ) && json::field(v, "title"@) == Some(json::Tree::Str(s.sessions[i].title))
                && json::field(v, "json"@) == Some(json::Tree::Str(written))
            &&& i == s.sessions.len() ==> json::field(v, "error"@) == Some(
                json::Tree::Str("会话不存在"@),
            )
        }),
        i < s.sessions.len() ==> agent::export_index(s, id) == i,
{
    names::lemma_apart();
    reveal_with_fuel(json::field_from, 6);
    let name = if id.len() == 0 {
        s.active
    } else {
        id
    };
    session::laws::law_a_conversation_is_found_by_its_name(s.sessions, name, i);
}

/// An imported conversation gets a name of its own from the time.
pub proof fn law_an_import_has_its_own_name(store: session::StoreV, s: session::SessionV, now: u64)
    ensures
        agent::imported(store, s, now).active == "i"@ + text::decimal(now as nat),
        agent::imported(store, s, now).sessions.last().id == "i"@ + text::decimal(now as nat),
{
}

/// A failure tells of what kind it is, and the error.
pub proof fn law_a_failure_tells_its_error(kind: Seq<char>, error: Seq<char>)
    ensures
        json::field(agent::failure(kind, error), "type"@) == Some(json::Tree::Str(kind)),
        json::field(agent::failure(kind, error), "ok"@) == Some(json::Tree::Bool(false)),
        json::field(agent::failure(kind, error), "error"@) == Some(json::Tree::Str(error)),
{
    names::lemma_apart();
    reveal_with_fuel(json::field_from, 4);
}

/// No run starts without settings or without a key, and the user is told which of them
/// is missing; with both, one does.
pub proof fn law_a_run_needs_a_key(map: json::Tree, e: Seq<char>, key: Seq<char>)
    ensures
        agent::checked(Err(e), key) matches Some(v) && json::field(v, "error"@) == Some(
            json::Tree::Str("读取设置失败："@ + e),
        ),
        key.len() == 0 ==> (agent::checked(Ok(map), key) matches Some(v) && json::field(v, "error"@)
            == Some(
            json::Tree::Str(
                "尚未配置 API Key：请到 设置→插件→OneTHU Harness 展开卡片填写后重试。"@,
            ),
        )),
        key.len() > 0 ==> agent::checked(Ok(map), key) is None,
{
    names::lemma_apart();
    reveal_with_fuel(json::field_from, 4);
}

/// The text under a name, as a list of one; none where it is empty or not there.
pub open spec fn part(v: json::Tree, key: Seq<char>) -> Seq<Seq<char>> {
    match json::field(v, key) {
        Some(json::Tree::Str(x)) => if x.len() > 0 {
            Seq::empty().push(x)
        } else {
            Seq::empty()
        },
        _ => Seq::empty(),
    }
}

/// The result of a write is told by its seat, section, time, status, by what was
/// cancelled, its kind and its day, as far as it has them; otherwise by its text, or the
/// first two hundred and twenty characters of a longer one.
pub proof fn law_a_result_is_told_by_its_fields(t: Seq<char>, v: json::Tree)
    ensures
        ({
            let parts = part(v, "seat"@) + part(v, "section"@) + part(v, "time"@) + part(
                v,
                "status"@,
            ) + part(v, "cancelled"@) + part(v, "kind"@) + part(v, "date"@);
            &&& v is Obj && parts.len() > 0 ==> agent::humane(t, Some(v)) == text::joined(
                parts,
                " · "@,
            )
            &&& !(v is Obj) || parts.len() == 0 ==> agent::humane(t, Some(v)) == agent::humane(
                t,
                None,
            )
        }),
        t.len() <= 220 ==> agent::humane(t, None) == t,
        t.len() > 220 ==> agent::humane(t, None) == t.take(220) + "…（全文 "@ + text::decimal(t.len())
            + " 字略）"@,
{
    let k0 = Seq::<Seq<char>>::empty();
    let k1 = k0.push("seat"@);
    let k2 = k1.push("section"@);
    let k3 = k2.push("time"@);
    let k4 = k3.push("status"@);
    let k5 = k4.push("cancelled"@);
    let k6 = k5.push("kind"@);
    let k7 = k6.push("date"@);
    assert(agent::told_keys() =~= k7);
    assert(agent::told_parts(v, k0) =~= Seq::empty());
    lemma_one_part(v, k0, "seat"@);
    lemma_one_part(v, k1, "section"@);
    lemma_one_part(v, k2, "time"@);
    lemma_one_part(v, k3, "status"@);
    lemma_one_part(v, k4, "cancelled"@);
    lemma_one_part(v, k5, "kind"@);
    lemma_one_part(v, k6, "date"@);
    assert(Seq::<Seq<char>>::empty() + part(v, "seat"@) =~= part(v, "seat"@));
}

proof fn lemma_one_part(v: json::Tree, keys: Seq<Seq<char>>, key: Seq<char>)
    ensures
        agent::told_parts(v, keys.push(key)) == agent::told_parts(v, keys) + part(v, key),
{
    assert(keys.push(key).drop_last() =~= keys);
    assert(agent::told_parts(v, keys.push(key)) =~= agent::told_parts(v, keys) + part(v, key));
}

/// An error of the model's service is told as it is, unless the user can mend it: a
/// session that is gone, a key that is refused, an address that is wrong.
pub proof fn law_an_error_says_how_to_mend_it(e: Seq<char>)
    ensures
        text::occurs(e, "会话未能建立"@) ==> agent::llm_text(e)
            == "登录会话已失效，请重新打开 OneTHU 登录后继续。"@,
        !text::occurs(e, "会话未能建立"@) && text::occurs(e, "401"@) ==> agent::llm_text(e)
            == "模型 API 鉴权失败（401）：请检查 API Key。"@,
        !text::occurs(e, "会话未能建立"@) && text::occurs(text::lowercase(e), "unauthorized"@)
            ==> agent::llm_text(e) == "模型 API 鉴权失败（401）：请检查 API Key。"@,
        !text::occurs(e, "会话未能建立"@) && !text::occurs(e, "401"@) && !text::occurs(
            text::lowercase(e),
            "unauthorized"@,
        ) && text::occurs(e, "404"@) ==> agent::llm_text(e)
            == "模型接口 404：请检查 API Endpoint（一般应以 /v1 结尾）。"@,
        !text::occurs(e, "会话未能建立"@) && !text::occurs(e, "401"@) && !text::occurs(
            text::lowercase(e),
            "unauthorized"@,
        ) && !text::occurs(e, "404"@) ==> agent::llm_text(e) == e,
{
}

proof fn lemma_within(a: Seq<char>, x: Seq<char>, b: Seq<char>)
    ensures
        text::occurs(a + x + b, x),
{
    let s = a + x + b;
    assert(s.subrange(a.len() as int, (a.len() + x.len()) as int) =~= x);
    assert(text::occurs_at(s, x, a.len() as int));
}

/// What the model is told first holds the time, its own name, what it can take at once
/// and how many steps it has.
pub proof fn law_the_prompt_tells_time_model_and_limits(now: Seq<char>, cfg: Config)
    ensures
        text::occurs(agent::prompt(now, cfg), agent::PROMPT_TIME@ + now),
        text::occurs(agent::prompt(now, cfg), agent::PROMPT_RULES@ + cfg.model@),
        text::occurs(
            agent::prompt(now, cfg),
            "；上下文预算约 "@ + text::decimal(cfg.max_context as nat) + " tokens；单次任务最多 "@
                + text::decimal(cfg.max_steps as nat) + " 步工具调用。"@,
        ),
{
    let p = agent::prompt(now, cfg);
    let none = Seq::<char>::empty();
    let t = agent::PROMPT_TIME@ + now;
    let r = agent::PROMPT_RULES@ + cfg.model@;
    let l = "；上下文预算约 "@ + text::decimal(cfg.max_context as nat) + " tokens；单次任务最多 "@
        + text::decimal(cfg.max_steps as nat) + " 步工具调用。"@;
    assert(p =~= none + t + (r + l));
    lemma_within(none, t, r + l);
    assert(p =~= t + r + l);
    lemma_within(t, r, l);
    assert(p =~= (t + r) + l + none);
    lemma_within(t + r, l, none);
}

} // verus!
