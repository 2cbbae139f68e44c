//! The tools that only look things up, outside the libraries.

use crate::config;
use crate::date;
use crate::date::Date;
use crate::host;
use crate::host::Host;
use crate::json;
use crate::json::{Arr, Json, Num, Rec};
use crate::text;
use crate::tools::plan;
use vstd::prelude::*;

verus! {

/// A lookup whose result goes to the model as it is.
pub open spec fn lookup_plan(ns: Seq<char>, method: Seq<char>) -> plan::Plan {
    plan::ask(ns, method, plan::none(), |v: json::Tree| plan::say(v))
}

pub(crate) fn lookup<H: Host>(h: &mut H, ns: &str, method: &str, Ghost(t): Ghost<plan::Run>) -> (r:
    Result<Json, String>)
    requires
        plan::on_way(t, old(h).log()),
        t.at == lookup_plan(ns@, method@),
    ensures
        plan::on_way(plan::at(t, plan::end_of(r)), final(h).log()),
{
    plan::host(h, ns, method, plan::no_args(), Ghost(t))
}

/// Who is logged in.
pub open spec fn profile(status: json::Tree, username: json::Tree, info: json::Tree) -> json::Tree {
    json::Tree::Obj(
        json::no_fields().push(("sessionStatus"@, status)).push(("username"@, username)).push(
            ("name"@, json::Tree::Str(json::text_at(info, "name"@))),
        ).push(("studentId"@, json::Tree::Str(json::text_at(info, "studentId"@)))).push(
            ("department"@, json::Tree::Str(json::text_at(info, "department"@))),
        ).push(("major"@, json::Tree::Str(json::text_at(info, "major"@)))).push(
            ("email"@, json::Tree::Str(json::text_at(info, "email"@))),
        ),
    )
}

pub open spec fn profile_plan() -> plan::Plan {
    plan::ask(
        "session"@,
        "status"@,
        plan::none(),
        |status: json::Tree|
            plan::ask(
                "session"@,
                "username"@,
                plan::none(),
                |username: json::Tree|
                    plan::ask(
                        "user"@,
                        "info"@,
                        plan::none(),
                        |info: json::Tree| plan::say(profile(status, username, info)),
                    ),
            ),
    )
}

pub(crate) fn query_profile<H: Host>(h: &mut H, Ghost(t): Ghost<plan::Run>) -> (r: Result<
    Json,
    String,
>)
    requires
        plan::on_way(t, old(h).log()),
        t.at == profile_plan(),
    ensures
        plan::on_way(plan::at(t, plan::end_of(r)), final(h).log()),
{
    let status = match plan::host(h, "session", "status", plan::no_args(), Ghost(t)) {
        Ok(v) => v,
        Err(e) => {
            return Err(e);
        },
    };
    let ghost t = plan::next(t, Ok(status@));
    let username = match plan::host(h, "session", "username", plan::no_args(), Ghost(t)) {
        Ok(v) => v,
        Err(e) => {
            return Err(e);
        },
    };
    let ghost t = plan::next(t, Ok(username@));
    let info = match plan::host(h, "user", "info", plan::no_args(), Ghost(t)) {
        Ok(v) => v,
        Err(e) => {
            return Err(e);
        },
    };
    Ok(
        Rec::new().with("sessionStatus", status).with("username", username).text(
            "name",
            info.text("name").as_str(),
        ).text("studentId", info.text("studentId").as_str()).text(
            "department",
            info.text("department").as_str(),
        ).text("major", info.text("major").as_str()).text(
            "email",
            info.text("email").as_str(),
        ).done(),
    )
}

/// Two days, as arguments.
pub open spec fn day_pair(a: int, b: int) -> json::Tree {
    json::Tree::Arr(
        json::no_items().push(json::Tree::Str(date::date_at(a).text())).push(
            json::Tree::Str(date::date_at(b).text()),
        ),
    )
}

fn days_args(a: Date, b: Date) -> (r: Json)
    requires
        a.wf(),
        b.wf(),
    ensures
        r@ == day_pair(a.number(), b.number()),
{
    proof {
        date::lemma_date_at(a);
        date::lemma_date_at(b);
    }
    Arr::new().text(date::date_text(a).as_str()).text(date::date_text(b).as_str()).done()
}

/// The first day that a timetable is asked for: today where none is named.
pub open spec fn schedule_start(today: Date, args: json::Tree) -> Option<int> {
    config::resolved(today, plan::or_text(json::text_at(args, "start"@), "今天"@))
}

/// The last day that a timetable is asked for: a week from the first where none is
/// named.
pub open spec fn schedule_end(today: Date, args: json::Tree, start: int) -> Option<int> {
    let end = json::text_at(args, "end"@);
    if end.len() == 0 {
        date::existing(start + 6)
    } else {
        config::resolved(today, end)
    }
}

pub open spec fn schedule_plan(today: Date, args: json::Tree) -> plan::Plan {
    match schedule_start(today, args) {
        Some(start) => match schedule_end(today, args, start) {
            Some(end) => plan::ask(
                "info"@,
                "schedule"@,
                day_pair(start, end),
                |v: json::Tree| plan::say(v),
            ),
            None => plan::fail("无法理解 end 日期"@),
        },
        None => plan::fail("无法理解 start 日期"@),
    }
}

pub(crate) fn query_schedule<H: Host>(
    h: &mut H,
    today: Date,
    args: &Json,
    Ghost(t): Ghost<plan::Run>,
) -> (r: Result<Json, String>)
    requires
        today.wf(),
        plan::on_way(t, old(h).log()),
        t.at == schedule_plan(today, args@),
    ensures
        plan::on_way(plan::at(t, plan::end_of(r)), final(h).log()),
{
    let named = plan::or_default(args.text("start").as_str(), "今天");
    let start = match config::resolve_date_on(today, named.as_str()) {
        Some(d) => d,
        None => {
            return Err("无法理解 start 日期".to_owned());
        },
    };
    let end_text = args.text("end");
    let last = if end_text.as_str().is_empty() {
        date::shift(start, 6)
    } else {
        config::resolve_date_on(today, end_text.as_str())
    };
    let end = match last {
        Some(d) => d,
        None => {
            return Err("无法理解 end 日期".to_owned());
        },
    };
    plan::host(h, "info", "schedule", days_args(start, end), Ghost(t))
}

/// What is told of a card.
pub open spec fn balance(c: json::Tree) -> json::Tree {
    json::Tree::Obj(
        json::no_fields().push(("userName"@, json::Tree::Str(json::text_at(c, "userName"@)))).push(
            ("balance"@, json::value_at(c, "balance"@)),
        ).push(("cardStatus"@, json::Tree::Str(json::text_at(c, "cardStatus"@)))),
    )
}

pub open spec fn balance_plan() -> plan::Plan {
    plan::ask("card"@, "info"@, plan::none(), |c: json::Tree| plan::say(balance(c)))
}

pub(crate) fn query_card_balance<H: Host>(h: &mut H, Ghost(t): Ghost<plan::Run>) -> (r: Result<
    Json,
    String,
>)
    requires
        plan::on_way(t, old(h).log()),
        t.at == balance_plan(),
    ensures
        plan::on_way(plan::at(t, plan::end_of(r)), final(h).log()),
{
    match plan::host(h, "card", "info", plan::no_args(), Ghost(t)) {
        Ok(c) => Ok(
            Rec::new().text("userName", c.text("userName").as_str()).with(
                "balance",
                c.value("balance"),
            ).text("cardStatus", c.text("cardStatus").as_str()).done(),
        ),
        Err(e) => Err(e),
    }
}

/// The amounts of some transactions that are numbers, in their order.
pub open spec fn amounts_in(txs: Seq<json::Tree>) -> Seq<json::Tree>
    decreases txs.len(),
{
    if txs.len() == 0 {
        Seq::empty()
    } else {
        match json::field(txs.last(), "amount"@) {
            Some(a) => if a is Pos || a is Neg || a is Float {
                amounts_in(txs.drop_last()).push(a)
            } else {
                amounts_in(txs.drop_last())
            },
            None => amounts_in(txs.drop_last()),
        }
    }
}

/// What is told of a transaction.
pub open spec fn transaction_row() -> spec_fn(int, json::Tree) -> json::Tree {
    |i: int, t: json::Tree|
        json::Tree::Obj(
            json::no_fields().push(("summary"@, json::Tree::Str(json::text_at(t, "summary"@)))).push(
                ("time"@, json::Tree::Str(json::text_at(t, "timestamp"@))),
            ).push(("amount"@, json::value_at(t, "amount"@))).push(
                ("balance"@, json::value_at(t, "balance"@)),
            ),
        )
}

/// What is told of some transactions: their sum, and the first 90 of them.
pub open spec fn transactions(txs: Seq<json::Tree>, total: json::Tree) -> json::Tree {
    json::Tree::Obj(
        json::no_fields().push(("count"@, json::Tree::Pos(txs.len() as u64))).push(
            ("netAmount"@, total),
        ).push(("note"@, json::Tree::Str("amount 正负为收支方向"@))).push(
            ("rows"@, json::Tree::Arr(plan::first(txs, 90).map(transaction_row()))),
        ).push(("truncated"@, json::Tree::Bool(txs.len() > 90))),
    )
}

/// The first day whose transactions are asked for: six days ago where none is named.
pub open spec fn spending_start(today: Date, args: json::Tree) -> Option<int> {
    let start = json::text_at(args, "start"@);
    if text::trimmed(start).len() > 0 {
        config::resolved(today, start)
    } else {
        match date::existing(today.number() - 6) {
            Some(n) => config::resolved(today, date::date_at(n).text()),
            None => None,
        }
    }
}

/// The last day whose transactions are asked for: today where none is named.
pub open spec fn spending_end(today: Date, args: json::Tree) -> Option<int> {
    let end = json::text_at(args, "end"@);
    if end.len() == 0 {
        Some(today.number())
    } else {
        config::resolved(today, end)
    }
}

pub open spec fn transactions_plan(today: Date, args: json::Tree) -> plan::Plan {
    match spending_start(today, args) {
        Some(start) => match spending_end(today, args) {
            Some(end) => plan::ask(
                "card"@,
                "transactions"@,
                day_pair(start, end),
                |v: json::Tree|
                    plan::Plan::Total {
                        amounts: amounts_in(json::elements(v)),
                        sum: |total: json::Tree|
                            plan::say(transactions(json::elements(v), total)),
                    },
            ),
            None => plan::fail("无法理解 end 日期"@),
        },
        None => plan::fail("无法理解 start 日期"@),
    }
}

fn read_amounts(txs: &Vec<Json>) -> (r: Vec<Num>)
    ensures
        host::numbers(r@) == amounts_in(json::trees(txs@)),
{
    let ghost all = json::trees(txs@);
    let mut out: Vec<Num> = Vec::new();
    let mut i: usize = 0;
    assert(all.take(0) =~= Seq::empty());
    assert(host::numbers(out@) =~= Seq::empty());
    while i < txs.len()
        invariant
            i <= txs@.len(),
            all == json::trees(txs@),
            host::numbers(out@) == amounts_in(all.take(i as int)),
        decreases txs@.len() - i,
    {
        assert(all.take(i + 1).drop_last() =~= all.take(i as int));
        assert(all.take(i + 1).last() == txs@[i as int]@);
        if let Some(Json::Num(a)) = txs[i].get("amount") {
            let ghost before = out@;
            let n = a.clone();
            out.push(n);
            assert(host::numbers(out@) =~= host::numbers(before).push(n@));
        }
        i += 1;
    }
    assert(all.take(all.len() as int) =~= all);
    out
}

fn transaction_of(i: usize, t: &Json) -> (r: Json)
    ensures
        r@ == transaction_row()(i as int, t@),
{
    Rec::new().text("summary", t.text("summary").as_str()).text(
        "time",
        t.text("timestamp").as_str(),
    ).with("amount", t.value("amount")).with("balance", t.value("balance")).done()
}

/// The days whose transactions are asked for: the seven up to today where none is
/// named.
pub fn spending_days(today: Date, args: &Json) -> (r: Result<(Date, Date), String>)
    requires
        today.wf(),
    ensures
        match (spending_start(today, args@), spending_end(today, args@)) {
            (Some(a), Some(b)) => r matches Ok((start, end)) && start.wf() && end.wf()
                && start.number() == a && end.number() == b,
            (Some(_), None) => r matches Err(e) && e@ == "无法理解 end 日期"@,
            (None, _) => r matches Err(e) && e@ == "无法理解 start 日期"@,
        },
        text::trimmed(json::text_at(args@, "start"@)).len() == 0 && 1 <= today.year <= 9999
            ==> spending_start(today, args@) == Some(today.number() - 6),
{
    let named = args.text("start");
    let first = if text::trim(named.as_str()).as_str().is_empty() {
        match date::shift(today, -6) {
            Some(ago) => {
                proof {
                    date::lemma_date_at(ago);
                    date::lemma_same_year(ago, today);
                }
                config::resolve_date_on(today, date::date_text(ago).as_str())
            },
            None => {
                proof {
                    if today.year > date::MIN_YEAR {
                        date::lemma_past_first_year(today);
                        date::lemma_in_calendar(today);
                    }
                }
                None
            },
        }
    } else {
        config::resolve_date_on(today, named.as_str())
    };
    let start = match first {
        Some(d) => d,
        None => {
            return Err("无法理解 start 日期".to_owned());
        },
    };
    let end_text = args.text("end");
    if end_text.as_str().is_empty() {
        return Ok((start, today));
    }
    match config::resolve_date_on(today, end_text.as_str()) {
        Some(end) => Ok((start, end)),
        None => Err("无法理解 end 日期".to_owned()),
    }
}

pub(crate) fn query_card_transactions<H: Host>(
    h: &mut H,
    today: Date,
    args: &Json,
    Ghost(t): Ghost<plan::Run>,
) -> (r: Result<Json, String>)
    requires
        today.wf(),
        plan::on_way(t, old(h).log()),
        t.at == transactions_plan(today, args@),
    ensures
        plan::on_way(plan::at(t, plan::end_of(r)), final(h).log()),
{
    let (start, end) = match spending_days(today, args) {
        Ok(days) => days,
        Err(e) => {
            return Err(e);
        },
    };
    let v = match plan::host(h, "card", "transactions", days_args(start, end), Ghost(t)) {
        Ok(v) => v,
        Err(e) => {
            return Err(e);
        },
    };
    let ghost t = plan::next(t, Ok(v@));
    let txs = v.items();
    let amounts = read_amounts(&txs);
    let total = plan::total(h, &amounts, Ghost(t));
    let list = plan::rows(&txs, 90, transaction_of, Ghost(transaction_row()));
    Ok(
        Rec::new().count("count", txs.len()).with("netAmount", total).text(
            "note",
            "amount 正负为收支方向",
        ).with("rows", list).flag("truncated", txs.len() > 90).done(),
    )
}

/// What is told of a payment for electricity.
pub open spec fn payment_row() -> spec_fn(int, json::Tree) -> json::Tree {
    |i: int, r: json::Tree|
        json::Tree::Obj(
            json::no_fields().push(("time"@, json::Tree::Str(json::text_at(r, "time"@)))).push(
                ("amount"@, json::Tree::Str(json::text_at(r, "value"@))),
            ).push(("channel"@, json::Tree::Str(json::text_at(r, "channel"@)))).push(
                ("status"@, json::Tree::Str(json::text_at(r, "status"@))),
            ),
        )
}

/// What is told of some payments: the first 20 of them.
pub open spec fn payments(recs: Seq<json::Tree>) -> json::Tree {
    json::Tree::Obj(
        json::no_fields().push(("count"@, json::Tree::Pos(recs.len() as u64))).push(
            ("rows"@, json::Tree::Arr(plan::first(recs, 20).map(payment_row()))),
        ).push(("truncated"@, json::Tree::Bool(recs.len() > 20))),
    )
}

pub open spec fn payments_plan() -> plan::Plan {
    plan::ask(
        "dorm"@,
        "elePayRecord"@,
        plan::none(),
        |v: json::Tree| plan::say(payments(json::elements(v))),
    )
}

fn payment_of(i: usize, r: &Json) -> (row: Json)
    ensures
        row@ == payment_row()(i as int, r@),
{
    Rec::new().text("time", r.text("time").as_str()).text("amount", r.text("value").as_str()).text(
        "channel",
        r.text("channel").as_str(),
    ).text("status", r.text("status").as_str()).done()
}

pub(crate) fn query_dorm_ele_records<H: Host>(h: &mut H, Ghost(t): Ghost<plan::Run>) -> (r: Result<
    Json,
    String,
>)
    requires
        plan::on_way(t, old(h).log()),
        t.at == payments_plan(),
    ensures
        plan::on_way(plan::at(t, plan::end_of(r)), final(h).log()),
{
    let v = match plan::host(h, "dorm", "elePayRecord", plan::no_args(), Ghost(t)) {
        Ok(v) => v,
        Err(e) => {
            return Err(e);
        },
    };
    let recs = v.items();
    let list = plan::rows(&recs, 20, payment_of, Ghost(payment_row()));
    Ok(
        Rec::new().count("count", recs.len()).with("rows", list).flag(
            "truncated",
            recs.len() > 20,
        ).done(),
    )
}

/// What is told of the campus network.
pub open spec fn network(b: json::Tree, devices: json::Tree) -> json::Tree {
    json::Tree::Obj(
        json::no_fields().push(
            ("productName"@, json::Tree::Str(json::text_at(b, "productName"@))),
        ).push(("usedBytes"@, json::value_at(b, "usedBytes"@))).push(
            ("accountBalance"@, json::value_at(b, "accountBalance"@)),
        ).push(("onlineDevices"@, devices)),
    )
}

pub open spec fn network_plan() -> plan::Plan {
    plan::ask(
        "network"@,
        "balance"@,
        plan::none(),
        |b: json::Tree|
            plan::ask(
                "network"@,
                "deviceCount"@,
                plan::none(),
                |devices: json::Tree| plan::say(network(b, devices)),
            ),
    )
}

pub(crate) fn query_network<H: Host>(h: &mut H, Ghost(t): Ghost<plan::Run>) -> (r: Result<
    Json,
    String,
>)
    requires
        plan::on_way(t, old(h).log()),
        t.at == network_plan(),
    ensures
        plan::on_way(plan::at(t, plan::end_of(r)), final(h).log()),
{
    let b = match plan::host(h, "network", "balance", plan::no_args(), Ghost(t)) {
        Ok(v) => v,
        Err(e) => {
            return Err(e);
        },
    };
    let ghost t = plan::next(t, Ok(b@));
    let devices = match plan::host(h, "network", "deviceCount", plan::no_args(), Ghost(t)) {
        Ok(v) => v,
        Err(e) => {
            return Err(e);
        },
    };
    Ok(
        Rec::new().text("productName", b.text("productName").as_str()).with(
            "usedBytes",
            b.value("usedBytes"),
        ).with("accountBalance", b.value("accountBalance")).with("onlineDevices", devices).done(),
    )
}

/// What is told of a piece of news.
pub open spec fn news_row() -> spec_fn(int, json::Tree) -> json::Tree {
    |i: int, it: json::Tree|
        json::Tree::Obj(
            json::no_fields().push(("xxid"@, json::Tree::Str(json::text_at(it, "xxid"@)))).push(
                ("name"@, json::Tree::Str(json::text_at(it, "name"@))),
            ).push(("date"@, json::Tree::Str(json::text_at(it, "date"@)))).push(
                ("source"@, json::Tree::Str(json::text_at(it, "source"@))),
            ).push(("url"@, json::Tree::Str(json::text_at(it, "url"@)))),
        )
}

/// What is told of some news: the first 20 pieces, with a note.
pub open spec fn news(list: json::Tree, note: Seq<char>) -> json::Tree {
    json::Tree::Obj(
        json::no_fields().push(
            ("rows"@, json::Tree::Arr(plan::first(json::elements(list), 20).map(news_row()))),
        ).push(("note"@, json::Tree::Str(note))),
    )
}

/// The page that is asked for: the first where none is named.
pub open spec fn page_of(args: json::Tree) -> i64 {
    match json::i64_of(json::field(args, "page"@)) {
        Some(p) => p,
        None => 1,
    }
}

pub open spec fn news_plan(args: json::Tree) -> plan::Plan {
    let kw = json::text_at(args, "keyword"@);
    let then = |list: json::Tree|
        plan::say(news(list, "每条新闻务必把 url 一并给用户（可点开原文），不要只报标题"@));
    if kw.len() == 0 {
        plan::ask(
            "info"@,
            "news"@,
            json::Tree::Arr(json::no_items().push(json::int_tree(page_of(args) as int))),
            then,
        )
    } else {
        plan::ask(
            "info"@,
            "searchNews"@,
            json::Tree::Arr(
                json::no_items().push(json::Tree::Str(kw)).push(
                    json::int_tree(page_of(args) as int),
                ),
            ),
            then,
        )
    }
}

pub open spec fn subscribed_plan(args: json::Tree) -> plan::Plan {
    plan::ask(
        "info"@,
        "newsSub"@,
        json::Tree::Arr(json::no_items().push(json::int_tree(page_of(args) as int))),
        |list: json::Tree|
            plan::say(news(list, "每条新闻务必把 url 一并给用户（可点开原文）"@)),
    )
}

fn news_of(i: usize, it: &Json) -> (r: Json)
    ensures
        r@ == news_row()(i as int, it@),
{
    Rec::new().text("xxid", it.text("xxid").as_str()).text("name", it.text("name").as_str()).text(
        "date",
        it.text("date").as_str(),
    ).text("source", it.text("source").as_str()).text("url", it.text("url").as_str()).done()
}

fn tell_news(list: &Json, note: &str) -> (r: Json)
    ensures
        r@ == news(list@, note@),
{
    let items = plan::rows(&list.items(), 20, news_of, Ghost(news_row()));
    Rec::new().with("rows", items).text("note", note).done()
}

fn read_page(args: &Json) -> (r: i64)
    ensures
        r == page_of(args@),
{
    match args.get("page") {
        Some(p) => match p.as_i64() {
            Some(n) => n,
            None => 1,
        },
        None => 1,
    }
}

pub(crate) fn query_news<H: Host>(h: &mut H, args: &Json, Ghost(t): Ghost<plan::Run>) -> (r: Result<
    Json,
    String,
>)
    requires
        plan::on_way(t, old(h).log()),
        t.at == news_plan(args@),
    ensures
        plan::on_way(plan::at(t, plan::end_of(r)), final(h).log()),
{
    let kw = args.text("keyword");
    let page = read_page(args);
    let found = if kw.as_str().is_empty() {
        plan::host(h, "info", "news", Arr::new().whole(page).done(), Ghost(t))
    } else {
        plan::host(
            h,
            "info",
            "searchNews",
            Arr::new().text(kw.as_str()).whole(page).done(),
            Ghost(t),
        )
    };
    match found {
        Ok(list) => Ok(
            tell_news(&list, "每条新闻务必把 url 一并给用户（可点开原文），不要只报标题"),
        ),
        Err(e) => Err(e),
    }
}

pub(crate) fn query_subscribed_news<H: Host>(
    h: &mut H,
    args: &Json,
    Ghost(t): Ghost<plan::Run>,
) -> (r: Result<Json, String>)
    requires
        plan::on_way(t, old(h).log()),
        t.at == subscribed_plan(args@),
    ensures
        plan::on_way(plan::at(t, plan::end_of(r)), final(h).log()),
{
    let page = read_page(args);
    match plan::host(h, "info", "newsSub", Arr::new().whole(page).done(), Ghost(t)) {
        Ok(list) => Ok(tell_news(&list, "每条新闻务必把 url 一并给用户（可点开原文）")),
        Err(e) => Err(e),
    }
}

/// The first 3000 characters of an article.
pub open spec fn article(d: json::Tree) -> json::Tree {
    let t = host::message_of(d);
    json::Tree::Obj(
        json::no_fields().push(
            (
                "text"@,
                json::Tree::Str(
                    if t.len() > 3000 {
                        text::first_chars(t, 3000) + "…（正文过长已截断）"@
                    } else {
                        t
                    },
                ),
            ),
        ),
    )
}

pub open spec fn article_plan(args: json::Tree) -> plan::Plan {
    plan::ask(
        "info"@,
        "newsDetail"@,
        json::Tree::Arr(
            json::no_items().push(json::Tree::Str(json::text_at(args, "news_id"@))),
        ),
        |d: json::Tree| plan::say(article(d)),
    )
}

pub(crate) fn read_news_article<H: Host>(
    h: &mut H,
    args: &Json,
    Ghost(t): Ghost<plan::Run>,
) -> (r: Result<Json, String>)
    requires
        plan::on_way(t, old(h).log()),
        t.at == article_plan(args@),
    ensures
        plan::on_way(plan::at(t, plan::end_of(r)), final(h).log()),
{
    let asked = Arr::new().text(args.text("news_id").as_str()).done();
    let d = match plan::host(h, "info", "newsDetail", asked, Ghost(t)) {
        Ok(v) => v,
        Err(e) => {
            return Err(e);
        },
    };
    let whole = host::value_to_msg(&d);
    let long = text::chars_of(whole.as_str()).len() > 3000;
    let shown = if long {
        text::cat(text::take_chars(whole.as_str(), 3000).as_str(), "…（正文过长已截断）")
    } else {
        whole
    };
    Ok(Rec::new().text("text", shown.as_str()).done())
}

pub open spec fn navigate_plan(args: json::Tree) -> plan::Plan {
    let params = match json::field(args, "params"@) {
        Some(p) => p,
        None => json::Tree::Obj(json::no_fields()),
    };
    plan::ask(
        "nav"@,
        "go"@,
        json::Tree::Arr(
            json::no_items().push(json::Tree::Str(json::text_at(args, "page"@))).push(params),
        ),
        |ok: json::Tree|
            plan::say(json::Tree::Obj(json::no_fields().push(("navigated"@, ok)))),
    )
}

pub(crate) fn navigate<H: Host>(h: &mut H, args: &Json, Ghost(t): Ghost<plan::Run>) -> (r: Result<
    Json,
    String,
>)
    requires
        plan::on_way(t, old(h).log()),
        t.at == navigate_plan(args@),
    ensures
        plan::on_way(plan::at(t, plan::end_of(r)), final(h).log()),
{
    let params = match args.get("params") {
        Some(p) => p.clone(),
        None => Rec::new().done(),
    };
    let asked = Arr::new().text(args.text("page").as_str()).with(params).done();
    match plan::host(h, "nav", "go", asked, Ghost(t)) {
        Ok(ok) => Ok(Rec::new().with("navigated", ok).done()),
        Err(e) => Err(e),
    }
}

pub open spec fn notify_plan(args: json::Tree) -> plan::Plan {
    plan::ask(
        "ui"@,
        "toast"@,
        json::Tree::Arr(json::no_items().push(json::Tree::Str(json::text_at(args, "text"@)))),
        |v: json::Tree|
            plan::say(json::Tree::Obj(json::no_fields().push(("sent"@, json::Tree::Bool(true))))),
    )
}

pub(crate) fn notify<H: Host>(h: &mut H, args: &Json, Ghost(t): Ghost<plan::Run>) -> (r: Result<
    Json,
    String,
>)
    requires
        plan::on_way(t, old(h).log()),
        t.at == notify_plan(args@),
    ensures
        plan::on_way(plan::at(t, plan::end_of(r)), final(h).log()),
{
    let asked = Arr::new().text(args.text("text").as_str()).done();
    match plan::host(h, "ui", "toast", asked, Ghost(t)) {
        Ok(_) => Ok(Rec::new().flag("sent", true).done()),
        Err(e) => Err(e),
    }
}

} // verus!
