//! The agent: what is told to the model and to the user, and the commands of the
//! panel. The conversation itself is in `chat`.

use crate::config;
use crate::config::Config;
use crate::json;
use crate::json::{Arr, Json, Num, Rec};
use crate::session;
use crate::session::{Msg, Session, Stamp, Store};
use crate::text;
use crate::usage::Usage;
use vstd::prelude::*;

pub mod chat;
pub mod laws;
pub mod machine;
pub mod panel;
pub mod selftest;
pub mod talk;

verus! {

/// What the model is told first, up to the time.
pub const PROMPT_TIME: &'static str = "你是小OH（OneTHU Harness）——清华园校园助手，运行在 OneTHU 应用内。用简体中文、简洁准确地回答。\n\
    当前时间：";

/// From the time to the name of the model: what it can do, and how it is to work.
pub const PROMPT_RULES: &'static str = "。\n\
    \n\
    能力（通过工具调用）：课表/考试/成绩/校历/重要事项、校园卡余额与流水、宿舍电费（缴费记录；剩余电量暂未开放）、校园网用量、新闻检索与订阅流（每条附 onethu-news://站内链接）、空教室、图书馆座位与研讨间查询/预约/取消、网络学堂全覆盖（跨学期课程/作业/通知/文件/讨论区版面/帖子/回帖）、体育场馆场景/可约场地/我的预约查询与取消（预约在官方页面完成，jump_venue_booking 跳转）、宿舍公共空间查询/预约/取消、CourseX 任意学期课程时间地点、选课目录/已选/选课社区评价（评课独立可查）、电子发票/银行代发/研究生收入/宿舍卫生/体测/教学评估、应用内跳转、toast 提示。\n\
    \n\
    工作规范：\n\
    1. 涉及数据的问题一律先调用工具查询，绝不编造；查询结果要如实转述，失败时说明原因。\n\
    2. 日期表达（今天/明天/下周三等）直接传给工具即可，工具会用本地时钟精确换算；图书馆座位只支持今天或明天。\n\
    3. 图书馆与研讨间的预订工具使用索引定位：必须先用对应的 query 工具拿到 libIdx/floorIdx/sectionIdx/seatIdx（或 kindIdx/roomIdx），再把索引原样传给预订工具。\n\
    4. 预订/取消是写操作：你调用后系统会让用户确认，确认通过才真正执行。你应在回答里向用户交代将要做的事，并等用户确认。\n\
    5. 需要多个信息时尽量合并调用工具，减少往返；查询结果较长时总结要点回答，不要全文粘贴。\n\
    6. 涉及资金（饭卡/网费/电费）只读不写、绝不代充——但允许导航到官方充值入口（校园卡充值界面 = navigate life + lifeTab=card），支付由用户本人完成。\n\
    7. 回答新闻类问题时每条用 markdown 链接给 link 字段（[标题](link)，onethu-news:// 应用内直达新闻详情页），不要给外部原文 URL。\n\
    \n\
    模型：";

/// From the name of the model to the budget of its context.
pub const PROMPT_CONTEXT: &'static str = "；上下文预算约 ";

/// From that budget to the number of steps.
pub const PROMPT_STEPS: &'static str = " tokens；单次任务最多 ";

/// The end of it.
pub const PROMPT_END: &'static str = " 步工具调用。";

/// What the model is told first.
pub open spec fn prompt(now: Seq<char>, cfg: Config) -> Seq<char> {
    PROMPT_TIME@ + now + PROMPT_RULES@ + cfg.model@ + PROMPT_CONTEXT@ + text::decimal(
        cfg.max_context as nat,
    ) + PROMPT_STEPS@ + text::decimal(cfg.max_steps as nat) + PROMPT_END@
}

/// What the model is told first; `now` is the time, as a line.
pub fn system_prompt(now: &str, cfg: &Config) -> (r: String)
    ensures
        r@ == prompt(now@, *cfg),
{
    let mut s = text::cat3(PROMPT_TIME, now, PROMPT_RULES);
    s.append(cfg.model.as_str());
    s.append(PROMPT_CONTEXT);
    s.append(text::write_usize(cfg.max_context).as_str());
    s.append(PROMPT_STEPS);
    s.append(text::write_u64(cfg.max_steps as u64).as_str());
    s.append(PROMPT_END);
    s
}

/// How an error of the model's service is told: one that the user can mend says how.
pub open spec fn llm_text(e: Seq<char>) -> Seq<char> {
    if text::occurs(e, "会话未能建立"@) {
        "登录会话已失效，请重新打开 OneTHU 登录后继续。"@
    } else if text::occurs(e, "401"@) || text::occurs(text::lowercase(e), "unauthorized"@) {
        "模型 API 鉴权失败（401）：请检查 API Key。"@
    } else if text::occurs(e, "404"@) {
        "模型接口 404：请检查 API Endpoint（一般应以 /v1 结尾）。"@
    } else {
        e
    }
}

pub fn friendly_llm(e: String) -> (r: String)
    ensures
        r@ == llm_text(e@),
{
    if text::contains(e.as_str(), "会话未能建立") {
        "登录会话已失效，请重新打开 OneTHU 登录后继续。".to_owned()
    } else if text::contains(e.as_str(), "401") || text::contains(
        text::to_lower(e.as_str()).as_str(),
        "unauthorized",
    ) {
        "模型 API 鉴权失败（401）：请检查 API Key。".to_owned()
    } else if text::contains(e.as_str(), "404") {
        "模型接口 404：请检查 API Endpoint（一般应以 /v1 结尾）。".to_owned()
    } else {
        e
    }
}

/// A failure, as the panel takes it.
pub open spec fn failure(kind: Seq<char>, error: Seq<char>) -> json::Tree {
    json::Tree::Obj(
        json::no_fields().push(("type"@, json::Tree::Str(kind))).push(
            ("ok"@, json::Tree::Bool(false)),
        ).push(("error"@, json::Tree::Str(error))),
    )
}

pub fn failed(kind: &str, error: &str) -> (r: Json)
    ensures
        r@ == failure(kind@, error@),
{
    Rec::new().text("type", kind).flag("ok", false).text("error", error).done()
}

/// The settings that a run starts with, or why it does not start.
pub open spec fn checked(settings: Result<json::Tree, Seq<char>>, key: Seq<char>) -> Option<json::Tree> {
    match settings {
        Err(e) => Some(failure("chat"@, "读取设置失败："@ + e)),
        Ok(_) => if key.len() == 0 {
            Some(
                failure(
                    "chat"@,
                    "尚未配置 API Key：请到 设置→插件→OneTHU Harness 展开卡片填写后重试。"@,
                ),
            )
        } else {
            None
        },
    }
}

/// The settings of a run: what the host gave, with the figures in it read. There is no
/// run where the host failed, and none without a key.
pub fn preflight(settings: &Result<Json, String>, figures: config::Figures) -> (r: Result<
    Config,
    Json,
>)
    ensures
        match settings {
            Ok(map) => {
                let key = config::setting_text(map@, "apiKey"@);
                match r {
                    Ok(cfg) => key.len() > 0 && config::configured(map@, figures, cfg),
                    Err(v) => key.len() == 0 && Some(v@) == checked(Ok(map@), key),
                }
            },
            Err(e) => r matches Err(v) && Some(v@) == checked(Err(e@), Seq::empty()),
        },
{
    match settings {
        Ok(map) => {
            let cfg = Config::from_settings(map, figures);
            if cfg.api_key.as_str().is_empty() {
                Err(
                    failed(
                        "chat",
                        "尚未配置 API Key：请到 设置→插件→OneTHU Harness 展开卡片填写后重试。",
                    ),
                )
            } else {
                Ok(cfg)
            }
        },
        Err(e) => Err(failed("chat", text::cat("读取设置失败：", e.as_str()).as_str())),
    }
}

/// The fields of a result that are worth telling the user, in this order.
pub open spec fn told_keys() -> Seq<Seq<char>> {
    Seq::<Seq<char>>::empty().push("seat"@).push("section"@).push("time"@).push("status"@).push(
        "cancelled"@,
    ).push("kind"@).push("date"@)
}

/// The texts under some names that are there and not empty.
pub open spec fn told_parts(v: json::Tree, keys: Seq<Seq<char>>) -> Seq<Seq<char>>
    decreases keys.len(),
{
    if keys.len() == 0 {
        Seq::empty()
    } else {
        let before = told_parts(v, keys.drop_last());
        let x = json::text_at(v, keys.last());
        if x.len() > 0 {
            before.push(x)
        } else {
            before
        }
    }
}

/// The result of a write, for the user: the fields worth telling, or the beginning of
/// the text where there is none.
pub open spec fn humane(t: Seq<char>, read: Option<json::Tree>) -> Seq<char> {
    let parts = match read {
        Some(v) => if v is Obj {
            told_parts(v, told_keys())
        } else {
            Seq::empty()
        },
        None => Seq::empty(),
    };
    if parts.len() > 0 {
        text::joined(parts, " · "@)
    } else if t.len() > 220 {
        text::first_chars(t, 220) + "…（全文 "@ + text::decimal(t.len()) + " 字略）"@
    } else {
        t
    }
}

fn told_of(v: &Json) -> (r: Vec<String>)
    ensures
        text::texts(r@) == told_parts(v@, told_keys()),
{
    let mut keys: Vec<&str> = Vec::new();
    keys.push("seat");
    keys.push("section");
    keys.push("time");
    keys.push("status");
    keys.push("cancelled");
    keys.push("kind");
    keys.push("date");
    let ghost all = told_keys();
    assert(all.len() == 7);
    assert(forall|k: int| 0 <= k < 7 ==> (#[trigger] keys@[k])@ == all[k]);
    let mut out: Vec<String> = Vec::new();
    let mut i: usize = 0;
    assert(all.take(0) =~= Seq::empty());
    assert(text::texts(out@) =~= Seq::empty());
    while i < keys.len()
        invariant
            i <= keys@.len(),
            keys@.len() == 7,
            all == told_keys(),
            all.len() == 7,
            forall|k: int| 0 <= k < 7 ==> (#[trigger] keys@[k])@ == all[k],
            text::texts(out@) == told_parts(v@, all.take(i as int)),
        decreases keys@.len() - i,
    {
        assert(all.take(i + 1).drop_last() =~= all.take(i as int));
        assert(all.take(i + 1).last() == keys@[i as int]@);
        let x = v.text(keys[i]);
        if !x.as_str().is_empty() {
            let ghost before = out@;
            out.push(x);
            assert(text::texts(out@) =~= text::texts(before).push(x@));
        }
        i += 1;
    }
    assert(all.take(7) =~= all);
    out
}

/// The result of a write, for the user, out of its text and the JSON it is.
pub fn humanize(t: &str, read: &Option<Json>) -> (r: String)
    ensures
        r@ == humane(t@, json::option_tree(*read)),
{
    let parts = match read {
        Some(v) => if v.is_object() {
            told_of(v)
        } else {
            Vec::new()
        },
        None => Vec::new(),
    };
    assert(text::texts(parts@).len() == parts@.len());
    if parts.len() > 0 {
        assert(read is Some && read->Some_0@ is Obj);
        return text::join(&parts, " · ");
    }
    let n = text::chars_of(t).len();
    if n > 220 {
        let mut s = text::cat3(
            text::take_chars(t, 220).as_str(),
            "…（全文 ",
            text::write_usize(n).as_str(),
        );
        s.append(" 字略）");
        s
    } else {
        t.to_owned()
    }
}

/// The result of a write, for the user.
pub fn humanize_tool_text(t: &str) -> (r: String)
    ensures
        r@ == humane(t@, json::json_read(t@)),
{
    humanize(t, &json::parse(t))
}

/// What a run used.
pub open spec fn run_payload(u: Usage, cost: json::Tree) -> json::Tree {
    json::Tree::Obj(
        json::no_fields().push(("prompt"@, json::Tree::Pos(u.prompt))).push(
            ("completion"@, json::Tree::Pos(u.completion)),
        ).push(("calls"@, json::Tree::Pos(u.calls))).push(("costUsd"@, cost)),
    )
}

pub(crate) fn run_usage_payload(u: &Usage, cost: &Num) -> (r: Json)
    ensures
        r@ == run_payload(*u, cost@),
{
    Rec::new().pos("prompt", u.prompt).pos("completion", u.completion).pos("calls", u.calls).with(
        "costUsd",
        Json::Num(cost.clone()),
    ).done()
}

/// What a conversation used.
pub open spec fn session_payload(s: session::SessionV) -> json::Tree {
    json::Tree::Obj(
        json::no_fields().push(("prompt"@, json::Tree::Pos(s.usage.prompt))).push(
            ("completion"@, json::Tree::Pos(s.usage.completion)),
        ).push(("costUsd"@, s.cost_usd)),
    )
}

pub(crate) fn session_usage_payload(s: &Session) -> (r: Json)
    ensures
        r@ == session_payload(s@),
{
    Rec::new().pos("prompt", s.usage.prompt).pos("completion", s.usage.completion).with(
        "costUsd",
        Json::Num(s.cost_usd.clone()),
    ).done()
}

/// What all conversations used, and what is left of the budget.
pub open spec fn total_payload(s: session::StoreV, budget: json::Tree, left: json::Tree) -> json::Tree {
    json::Tree::Obj(
        json::no_fields().push(("prompt"@, json::Tree::Pos(s.totals.prompt))).push(
            ("completion"@, json::Tree::Pos(s.totals.completion)),
        ).push(("calls"@, json::Tree::Pos(s.totals.calls))).push(
            ("costUsd"@, s.totals_cost_usd),
        ).push(("budgetUsd"@, budget)).push(("budgetLeftUsd"@, left)),
    )
}

pub(crate) fn total_usage_payload(store: &Store, budget: &Num, left: &Num) -> (r: Json)
    ensures
        r@ == total_payload(store@, budget@, left@),
{
    Rec::new().pos("prompt", store.totals.prompt).pos(
        "completion",
        store.totals.completion,
    ).pos("calls", store.totals.calls).with(
        "costUsd",
        Json::Num(store.totals_cost_usd.clone()),
    ).with("budgetUsd", Json::Num(budget.clone())).with(
        "budgetLeftUsd",
        Json::Num(left.clone()),
    ).done()
}

/// The messages of the user among some.
pub open spec fn asked(msgs: Seq<session::MsgV>) -> nat
    decreases msgs.len(),
{
    if msgs.len() == 0 {
        0
    } else {
        asked(msgs.drop_last()) + (if msgs.last().role == "user"@ {
            1nat
        } else {
            0nat
        })
    }
}

fn count_asked(msgs: &Vec<Msg>) -> (r: usize)
    ensures
        r == asked(session::msgs_of(msgs@)),
{
    let ghost all = session::msgs_of(msgs@);
    let mut n: usize = 0;
    let mut i: usize = 0;
    assert(all.take(0) =~= Seq::empty());
    while i < msgs.len()
        invariant
            i <= msgs@.len(),
            n <= i,
            all == session::msgs_of(msgs@),
            n == asked(all.take(i as int)),
        decreases msgs@.len() - i,
    {
        assert(all.take(i + 1).drop_last() =~= all.take(i as int));
        assert(all.take(i + 1).last() == msgs@[i as int]@);
        if text::same(msgs[i].role.as_str(), "user") {
            n += 1;
        }
        i += 1;
    }
    assert(all.take(all.len() as int) =~= all);
    n
}

/// What the list of conversations tells of one.
pub open spec fn listed(s: session::SessionV) -> json::Tree {
    json::Tree::Obj(
        json::no_fields().push(("id"@, json::Tree::Str(s.id))).push(
            ("title"@, json::Tree::Str(s.title)),
        ).push(("updatedAt"@, json::Tree::Pos(s.updated_at))).push(
            ("messages"@, json::Tree::Pos(asked(s.messages) as u64)),
        ).push(("costUsd"@, s.cost_usd)),
    )
}

/// The list of conversations.
pub open spec fn listing(s: Seq<session::SessionV>) -> json::Tree {
    json::Tree::Arr(s.map_values(|x: session::SessionV| listed(x)))
}

pub(crate) fn session_list(store: &Store) -> (r: Json)
    ensures
        r@ == listing(store@.sessions),
{
    let ghost all = store@.sessions.map_values(|x: session::SessionV| listed(x));
    let mut list = Arr::new();
    let mut i: usize = 0;
    assert(all.take(0) =~= json::no_items());
    while i < store.sessions.len()
        invariant
            i <= store.sessions@.len(),
            all == store@.sessions.map_values(|x: session::SessionV| listed(x)),
            list@ == all.take(i as int),
        decreases store.sessions@.len() - i,
    {
        let s = &store.sessions[i];
        assert(store@.sessions[i as int] == s@);
        assert(all.take(i + 1) =~= all.take(i as int).push(listed(s@)));
        list = list.with(
            Rec::new().text("id", s.id.as_str()).text("title", s.title.as_str()).pos(
                "updatedAt",
                s.updated_at,
            ).count("messages", count_asked(&s.messages)).with(
                "costUsd",
                Json::Num(s.cost_usd.clone()),
            ).done(),
        );
        i += 1;
    }
    assert(all.take(all.len() as int) =~= all);
    list.done()
}

pub open spec fn session_reply(id: Seq<char>, s: session::StoreV) -> json::Tree {
    json::Tree::Obj(
        json::no_fields().push(("type"@, json::Tree::Str("session"@))).push(
            ("ok"@, json::Tree::Bool(true)),
        ).push(("sessionId"@, json::Tree::Str(id))).push(("sessions"@, listing(s.sessions))),
    )
}

/// Opens a new conversation; the store is to be saved.
pub fn new_session(store: &mut Store, stamp: Stamp) -> (r: Json)
    requires
        old(store).seq < u64::MAX,
    ensures
        final(store)@ == session::opened(old(store)@, "新会话"@, stamp),
        r@ == session_reply(final(store)@.active, final(store)@),
{
    store.open_session("新会话", stamp);
    Rec::new().text("type", "session").flag("ok", true).text(
        "sessionId",
        store.active.as_str(),
    ).with("sessions", session_list(store)).done()
}

pub open spec fn sessions_reply(ok: bool, s: session::StoreV) -> json::Tree {
    json::Tree::Obj(
        json::no_fields().push(("type"@, json::Tree::Str("sessions"@))).push(
            ("ok"@, json::Tree::Bool(ok)),
        ).push(("active"@, json::Tree::Str(s.active))).push(("sessions"@, listing(s.sessions))),
    )
}

fn tell_sessions(ok: bool, store: &Store) -> (r: Json)
    ensures
        r@ == sessions_reply(ok, store@),
{
    Rec::new().text("type", "sessions").flag("ok", ok).text("active", store.active.as_str()).with(
        "sessions",
        session_list(store),
    ).done()
}

/// The conversations.
pub fn list_sessions(store: &Store) -> (r: Json)
    ensures
        r@ == sessions_reply(true, store@),
{
    tell_sessions(true, store)
}

pub open spec fn switch_reply(ok: bool, id: Seq<char>, s: session::StoreV) -> json::Tree {
    json::Tree::Obj(
        json::no_fields().push(("type"@, json::Tree::Str("session"@))).push(
            ("ok"@, json::Tree::Bool(ok)),
        ).push(
            (
                "sessionId"@,
                if ok {
                    json::Tree::Str(id)
                } else {
                    json::Tree::Null
                },
            ),
        ).push(("sessions"@, listing(s.sessions))),
    )
}

/// Makes a conversation active. The store is to be saved where there is such a one,
/// which is told first.
pub fn switch_session(store: &mut Store, id: &str) -> (r: (bool, Json))
    ensures
        r.0 == (session::find(old(store)@.sessions, id@) < old(store)@.sessions.len()),
        final(store)@ == (if r.0 {
            session::StoreV { active: id@, ..old(store)@ }
        } else {
            old(store)@
        }),
        r.1@ == switch_reply(r.0, id@, final(store)@),
{
    let ok = store.switch(id);
    let shown = if ok { json::string(id) } else { Json::Null };
    let reply = Rec::new().text("type", "session").flag("ok", ok).with("sessionId", shown).with(
        "sessions",
        session_list(store),
    ).done();
    (ok, reply)
}

/// Deletes a conversation. The store is to be saved where there was such a one, which
/// is told first.
pub fn delete_session(store: &mut Store, id: &str) -> (r: (bool, Json))
    ensures
        r.0 == (session::find(old(store)@.sessions, id@) < old(store)@.sessions.len()),
        final(store)@ == session::deleted(old(store)@, id@),
        r.1@ == sessions_reply(r.0, final(store)@),
{
    let ok = store.delete(id);
    let reply = tell_sessions(ok, store);
    (ok, reply)
}

/// The conversation that is to be exported: the named one, or the active one where no
/// name is given.
pub open spec fn export_index(s: session::StoreV, id: Seq<char>) -> int {
    session::find(
        s.sessions,
        if id.len() == 0 {
            s.active
        } else {
            id
        },
    )
}

/// Where the conversation stands that is to be exported.
pub fn export_target(store: &Store, id: &str) -> (r: Option<usize>)
    ensures
        match r {
            Some(i) => i == export_index(store@, id@) && i < store.sessions@.len(),
            None => export_index(store@, id@) == store.sessions@.len(),
        },
{
    let i = if id.is_empty() {
        store.position(store.active.as_str())
    } else {
        store.position(id)
    };
    if i < store.sessions.len() {
        Some(i)
    } else {
        None
    }
}

/// What is answered to a wish to export; `written` is the conversation as JSON.
pub open spec fn export_reply(s: session::StoreV, id: Seq<char>, written: Seq<char>) -> json::Tree {
    let i = export_index(s, id);
    if 0 <= i < s.sessions.len() {
        json::Tree::Obj(
            json::no_fields().push(("type"@, json::Tree::Str("export"@))).push(
                ("ok"@, json::Tree::Bool(true)),
            ).push(("sessionId"@, json::Tree::Str(s.sessions[i].id))).push(
                ("title"@, json::Tree::Str(s.sessions[i].title)),
            ).push(("json"@, json::Tree::Str(written))),
        )
    } else {
        failure("export"@, "会话不存在"@)
    }
}

/// Answers a wish to export; `written` is the conversation at `export_target`, as JSON.
pub fn export_session(store: &Store, id: &str, written: &str) -> (r: Json)
    ensures
        r@ == export_reply(store@, id@, written@),
{
    match export_target(store, id) {
        Some(i) => {
            let s = &store.sessions[i];
            assert(store@.sessions[i as int] == s@);
            Rec::new().text("type", "export").flag("ok", true).text(
                "sessionId",
                s.id.as_str(),
            ).text("title", s.title.as_str()).text("json", written).done()
        },
        None => failed("export", "会话不存在"),
    }
}

/// An imported conversation: all of it, under a name of its own, with no write that
/// awaits the user's word.
pub open spec fn taken_in(s: session::SessionV, now: u64) -> session::SessionV {
    session::SessionV { id: "i"@ + text::decimal(now as nat), pending: None, ..s }
}

/// The store with an imported conversation, which is active.
pub open spec fn imported(store: session::StoreV, s: session::SessionV, now: u64) -> session::StoreV {
    session::StoreV {
        sessions: store.sessions.push(taken_in(s, now)),
        active: taken_in(s, now).id,
        ..store
    }
}

pub open spec fn import_reply(title: Seq<char>, s: session::StoreV) -> json::Tree {
    json::Tree::Obj(
        json::no_fields().push(("type"@, json::Tree::Str("session"@))).push(
            ("ok"@, json::Tree::Bool(true)),
        ).push(("sessionId"@, json::Tree::Str(s.active))).push(
            ("title"@, json::Tree::Str(title)),
        ).push(("sessions"@, listing(s.sessions))),
    )
}

/// Takes a conversation in; `read` is what was pasted, or why it is none. The store is
/// to be saved where it is one.
pub fn import_session(store: &mut Store, read: Result<Session, String>, now: u64) -> (r: Json)
    ensures
        match read {
            Ok(s) => final(store)@ == imported(old(store)@, s@, now) && r@ == import_reply(
                s@.title,
                final(store)@,
            ),
            Err(e) => final(store)@ == old(store)@ && r@ == failure(
                "session"@,
                "导入失败："@ + e@,
            ),
        },
{
    match read {
        Ok(s) => {
            let mut s = s;
            s.id = text::cat("i", text::write_u64(now).as_str());
            s.pending = None;
            let title = s.title.clone();
            let id = s.id.clone();
            let ghost before = store@.sessions;
            store.sessions.push(s);
            assert(store@.sessions =~= before.push(s@));
            store.active = id;
            Rec::new().text("type", "session").flag("ok", true).text(
                "sessionId",
                store.active.as_str(),
            ).text("title", title.as_str()).with("sessions", session_list(store)).done()
        },
        Err(e) => failed("session", text::cat("导入失败：", e.as_str()).as_str()),
    }
}

pub open spec fn usage_reply(s: session::StoreV) -> json::Tree {
    json::Tree::Obj(
        json::no_fields().push(("type"@, json::Tree::Str("usage"@))).push(
            ("ok"@, json::Tree::Bool(true)),
        ).push(("totals"@, run_payload(s.totals, s.totals_cost_usd))).push(
            ("sessions"@, listing(s.sessions)),
        ),
    )
}

/// What was used so far.
pub fn usage_report(store: &Store) -> (r: Json)
    ensures
        r@ == usage_reply(store@),
{
    Rec::new().text("type", "usage").flag("ok", true).with(
        "totals",
        run_usage_payload(&store.totals, &store.totals_cost_usd),
    ).with("sessions", session_list(store)).done()
}

/// An exported conversation that is taken in again has all that it had: its title, its
/// messages, its trace, what it used and when; only its name is new, and no write
/// awaits the user's word. The other conversations are left as they are.
pub proof fn law_import_brings_all_back(store: session::StoreV, s: session::SessionV, now: u64, i: int)
    requires
        0 <= i < store.sessions.len(),
    ensures
        imported(store, s, now).sessions.last() == (session::SessionV {
            id: imported(store, s, now).active,
            pending: None,
            ..s
        }),
        imported(store, s, now).sessions[i] == store.sessions[i],
        imported(store, s, now).sessions.len() == store.sessions.len() + 1,
        imported(store, s, now).totals == store.totals,
{
}

} // verus!
