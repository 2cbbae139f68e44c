//! What the tools tell the model of what the host answered.

use crate::config;
use crate::date;
use crate::date::Date;
use crate::host;
use crate::json;
use crate::json::names;
use crate::text;
use crate::tools;
use crate::tools::campus;
use crate::tools::classrooms;
use crate::tools::defs;
use crate::tools::laws;
use crate::tools::plan;
use vstd::prelude::*;

verus! {

/// A call that the host answered.
pub open spec fn saw(
    ns: Seq<char>,
    method: Seq<char>,
    args: Seq<json::Tree>,
    v: json::Tree,
) -> host::Exchange {
    host::Exchange::Call { ns, method, args: json::Tree::Arr(args), reply: Ok(v) }
}

/// After these exchanges the tool is done, and tells `v`.
pub open spec fn tells(
    today: Date,
    name: Seq<char>,
    args: json::Tree,
    es: Seq<host::Exchange>,
    v: json::Tree,
) -> bool {
    plan::rest(tools::tool_plan(today, name, args, false), es) == Some(
        plan::Plan::Done(Ok(plan::OutV::Text(json::json_text(v)))),
    )
}

/// `v` has under `k` the text that `w` has under `l`; an empty one where it has none.
pub open spec fn text_from(v: json::Tree, k: Seq<char>, w: json::Tree, l: Seq<char>) -> bool {
    json::field(v, k) == Some(
        json::Tree::Str(
            match json::field(w, l) {
                Some(json::Tree::Str(x)) => x,
                _ => Seq::empty(),
            },
        ),
    )
}

/// `v` has under `k` what `w` has under `l`, null where it has nothing.
pub open spec fn value_from(v: json::Tree, k: Seq<char>, w: json::Tree, l: Seq<char>) -> bool {
    json::field(v, k) == Some(
        match json::field(w, l) {
            Some(x) => x,
            None => json::Tree::Null,
        },
    )
}

/// `v` has under `k` the whole number that `w` has under `l`, zero where it has none.
pub open spec fn number_from(v: json::Tree, k: Seq<char>, w: json::Tree, l: Seq<char>) -> bool {
    match json::field(w, l) {
        Some(json::Tree::Pos(n)) => json::field(v, k) == Some(
            json::Tree::Pos(
                if n <= i64::MAX {
                    n
                } else {
                    0
                },
            ),
        ),
        Some(json::Tree::Neg(n)) => n < 0 ==> json::field(v, k) == Some(json::Tree::Neg(n)),
        _ => json::field(v, k) == Some(json::Tree::Pos(0)),
    }
}

/// One more exchange.
pub(crate) proof fn lemma_next(p: plan::Plan, es: Seq<host::Exchange>, e: host::Exchange)
    ensures
        plan::rest(p, es.push(e)) == match plan::rest(p, es) {
            Some(q) => plan::step(q, e),
            None => None,
        },
        plan::rest(p, Seq::empty()) == Some(p),
{
    assert(es.push(e).drop_last() =~= es);
    assert(es.push(e).last() == e);
}

/// The profile is that of the user whom the host names.
pub proof fn law_profile_is_the_hosts(
    today: Date,
    args: json::Tree,
    status: json::Tree,
    username: json::Tree,
    info: json::Tree,
) -> (v: json::Tree)
    ensures
        tells(
            today,
            "query_profile"@,
            args,
            Seq::empty().push(saw("session"@, "status"@, Seq::empty(), status)).push(
                saw("session"@, "username"@, Seq::empty(), username),
            ).push(saw("user"@, "info"@, Seq::empty(), info)),
            v,
        ),
        json::field(v, "sessionStatus"@) == Some(status),
        json::field(v, "username"@) == Some(username),
        text_from(v, "name"@, info, "name"@),
        text_from(v, "studentId"@, info, "studentId"@),
        text_from(v, "department"@, info, "department"@),
        text_from(v, "major"@, info, "major"@),
        text_from(v, "email"@, info, "email"@),
{
    names::lemma_apart();
    reveal_with_fuel(json::field_from, 8);
    let p = tools::tool_plan(today, "query_profile"@, args, false);
    let es = Seq::<host::Exchange>::empty();
    let a = saw("session"@, "status"@, Seq::empty(), status);
    let b = saw("session"@, "username"@, Seq::empty(), username);
    let c = saw("user"@, "info"@, Seq::empty(), info);
    lemma_next(p, es, a);
    lemma_next(p, es.push(a), b);
    lemma_next(p, es.push(a).push(b), c);
    campus::profile(status, username, info)
}

/// The call that answers a question of its own accord.
pub open spec fn asked_of(name: Seq<char>) -> Option<(Seq<char>, Seq<char>)> {
    if name == "query_exams"@ {
        Some(("info"@, "exams"@))
    } else if name == "query_deadlines"@ {
        Some(("info"@, "deadlines"@))
    } else if name == "query_grades"@ {
        Some(("info"@, "report"@))
    } else if name == "query_calendar"@ {
        Some(("info"@, "schoolCalendar"@))
    } else if name == "my_library_bookings"@ {
        Some(("library"@, "records"@))
    } else if name == "my_libroom_bookings"@ {
        Some(("libroom"@, "records"@))
    } else {
        None
    }
}

/// Exams, deadlines, grades, the calendar and the bookings are told as the host has
/// them.
pub proof fn law_lookups_hand_on_the_answer(
    today: Date,
    name: Seq<char>,
    args: json::Tree,
    v: json::Tree,
)
    requires
        asked_of(name) is Some,
    ensures
        tells(
            today,
            name,
            args,
            Seq::empty().push(
                saw(asked_of(name)->Some_0.0, asked_of(name)->Some_0.1, Seq::empty(), v),
            ),
            v,
        ),
{
    names::lemma_apart();
    let p = tools::tool_plan(today, name, args, false);
    lemma_next(
        p,
        Seq::empty(),
        saw(asked_of(name)->Some_0.0, asked_of(name)->Some_0.1, Seq::empty(), v),
    );
}

/// The balance is that of the card.
pub proof fn law_balance_is_the_cards(today: Date, args: json::Tree, c: json::Tree) -> (v: json::Tree)
    ensures
        tells(
            today,
            "query_card_balance"@,
            args,
            Seq::empty().push(saw("card"@, "info"@, Seq::empty(), c)),
            v,
        ),
        text_from(v, "userName"@, c, "userName"@),
        value_from(v, "balance"@, c, "balance"@),
        text_from(v, "cardStatus"@, c, "cardStatus"@),
{
    names::lemma_apart();
    reveal_with_fuel(json::field_from, 4);
    lemma_next(
        tools::tool_plan(today, "query_card_balance"@, args, false),
        Seq::empty(),
        saw("card"@, "info"@, Seq::empty(), c),
    );
    campus::balance(c)
}

/// A transaction that has a number for its amount, of whatever sign and form.
pub open spec fn has_amount(t: json::Tree) -> bool {
    match json::field(t, "amount"@) {
        Some(json::Tree::Pos(_)) => true,
        Some(json::Tree::Neg(_)) => true,
        Some(json::Tree::Float(_)) => true,
        _ => false,
    }
}

/// The amount of every transaction that has a number for it is read, in order.
pub proof fn law_every_amount_is_read(txs: Seq<json::Tree>)
    requires
        forall|k: int| 0 <= k < txs.len() ==> has_amount(#[trigger] txs[k]),
    ensures
        campus::amounts_in(txs).len() == txs.len(),
        forall|k: int|
            0 <= k < txs.len() ==> Some(#[trigger] campus::amounts_in(txs)[k]) == json::field(
                txs[k],
                "amount"@,
            ),
    decreases txs.len(),
{
    if txs.len() > 0 {
        let before = txs.drop_last();
        assert forall|k: int| 0 <= k < before.len() implies has_amount(#[trigger] before[k]) by {
            assert(before[k] == txs[k]);
        }
        law_every_amount_is_read(before);
        assert(has_amount(txs[txs.len() - 1]));
        assert forall|k: int| 0 <= k < txs.len() implies Some(#[trigger] campus::amounts_in(txs)[k])
            == json::field(txs[k], "amount"@) by {
            if k < before.len() {
                assert(before[k] == txs[k]);
                assert(campus::amounts_in(before)[k] == campus::amounts_in(txs)[k]);
            }
        }
    }
}

/// Transactions are read one by one: those of two lists in a row are those of the one,
/// then those of the other, and one without a number for its amount changes nothing.
pub proof fn law_amounts_are_read_one_by_one(a: Seq<json::Tree>, b: Seq<json::Tree>)
    ensures
        campus::amounts_in(a + b) == campus::amounts_in(a) + campus::amounts_in(b),
        b.len() == 1 && !has_amount(b[0]) ==> campus::amounts_in(a + b) == campus::amounts_in(a),
    decreases b.len(),
{
    if b.len() == 0 {
        assert(a + b =~= a);
    } else {
        law_amounts_are_read_one_by_one(a, b.drop_last());
        assert((a + b).drop_last() =~= a + b.drop_last());
        assert((a + b).last() == b.last());
        assert(campus::amounts_in(a + b) =~= campus::amounts_in(a) + campus::amounts_in(b));
        if b.len() == 1 && !has_amount(b[0]) {
            assert(b.drop_last() =~= Seq::empty());
            assert(campus::amounts_in(b.drop_last()) =~= Seq::empty());
            assert(campus::amounts_in(b) =~= Seq::empty());
        }
    }
}

/// Transactions are told with the sum of their amounts, as the host adds them up, and
/// how many they are; at most ninety are told one by one, and whether any was left out.
pub proof fn law_transactions_are_summed(
    today: Date,
    args: json::Tree,
    start: int,
    end: int,
    txs: Seq<json::Tree>,
    total: json::Tree,
) -> (v: json::Tree)
    requires
        txs.len() <= u64::MAX,
        text::trimmed(json::text_at(args, "start"@)).len() > 0,
        config::resolved(today, json::text_at(args, "start"@)) == Some(start),
        json::text_at(args, "end"@).len() == 0 ==> end == today.number(),
        json::text_at(args, "end"@).len() > 0 ==> config::resolved(
            today,
            json::text_at(args, "end"@),
        ) == Some(end),
    ensures
        tells(
            today,
            "query_card_transactions"@,
            args,
            Seq::empty().push(
                saw(
                    "card"@,
                    "transactions"@,
                    Seq::empty().push(json::Tree::Str(date::date_at(start).text())).push(
                        json::Tree::Str(date::date_at(end).text()),
                    ),
                    json::Tree::Arr(txs),
                ),
            ).push(host::Exchange::Total { amounts: campus::amounts_in(txs), total }),
            v,
        ),
        json::field(v, "count"@) == Some(json::Tree::Pos(txs.len() as u64)),
        json::field(v, "netAmount"@) == Some(total),
        json::field(v, "note"@) == Some(json::Tree::Str("amount 正负为收支方向"@)),
        json::field(v, "truncated"@) == Some(json::Tree::Bool(txs.len() > 90)),
        json::field(v, "rows"@) matches Some(json::Tree::Arr(rows)) && rows.len() == if txs.len()
            <= 90 {
            txs.len()
        } else {
            90
        } && forall|i: int|
            0 <= i < rows.len() ==> {
                let row = #[trigger] rows[i];
                &&& text_from(row, "summary"@, txs[i], "summary"@)
                &&& text_from(row, "time"@, txs[i], "timestamp"@)
                &&& value_from(row, "amount"@, txs[i], "amount"@)
                &&& value_from(row, "balance"@, txs[i], "balance"@)
            },
{
    names::lemma_apart();
    reveal_with_fuel(json::field_from, 6);
    let p = tools::tool_plan(today, "query_card_transactions"@, args, false);
    let days = Seq::<json::Tree>::empty().push(json::Tree::Str(date::date_at(start).text())).push(
        json::Tree::Str(date::date_at(end).text()),
    );
    let a = saw("card"@, "transactions"@, days, json::Tree::Arr(txs));
    let b = host::Exchange::Total { amounts: campus::amounts_in(txs), total };
    lemma_next(p, Seq::empty(), a);
    lemma_next(p, Seq::empty().push(a), b);
    campus::transactions(txs, total)
}

/// Where no days are named, the transactions are those of the last seven days.
pub proof fn law_transactions_default_to_a_week(
    today: Date,
    args: json::Tree,
    es: Seq<host::Exchange>,
)
    requires
        json::field(args, "start"@) is None,
        json::field(args, "end"@) is None,
        es.len() == 1,
        plan::rest(tools::tool_plan(today, "query_card_transactions"@, args, false), es) is Some,
    ensures
        date::existing(today.number() - 6) == Some(today.number() - 6),
        config::resolved(today, date::date_at(today.number() - 6).text()) is Some,
        es[0] matches host::Exchange::Call { ns, method, args: days, reply } && {
            let first = config::resolved(today, date::date_at(today.number() - 6).text())->Some_0;
            &&& ns == "card"@
            &&& method == "transactions"@
            &&& days == json::Tree::Arr(
                Seq::empty().push(json::Tree::Str(date::date_at(first).text())).push(
                    json::Tree::Str(date::date_at(today.number()).text()),
                ),
            )
        },
{
    names::lemma_apart();
    let p = tools::tool_plan(today, "query_card_transactions"@, args, false);
    assert(es =~= Seq::empty().push(es[0]));
    lemma_next(p, Seq::empty(), es[0]);
    assert(text::trimmed(Seq::<char>::empty()).len() == 0);
}

/// Payments for electricity are told with how many they are; at most twenty are told one
/// by one, and whether any was left out.
pub proof fn law_payments_are_the_hosts(today: Date, args: json::Tree, recs: Seq<json::Tree>) -> (v:
    json::Tree)
    requires
        recs.len() <= u64::MAX,
    ensures
        tells(
            today,
            "query_dorm_ele_records"@,
            args,
            Seq::empty().push(saw("dorm"@, "elePayRecord"@, Seq::empty(), json::Tree::Arr(recs))),
            v,
        ),
        json::field(v, "count"@) == Some(json::Tree::Pos(recs.len() as u64)),
        json::field(v, "truncated"@) == Some(json::Tree::Bool(recs.len() > 20)),
        json::field(v, "rows"@) matches Some(json::Tree::Arr(rows)) && rows.len() == if recs.len()
            <= 20 {
            recs.len()
        } else {
            20
        } && forall|i: int|
            0 <= i < rows.len() ==> {
                let row = #[trigger] rows[i];
                &&& text_from(row, "time"@, recs[i], "time"@)
                &&& text_from(row, "amount"@, recs[i], "value"@)
                &&& text_from(row, "channel"@, recs[i], "channel"@)
                &&& text_from(row, "status"@, recs[i], "status"@)
            },
{
    names::lemma_apart();
    reveal_with_fuel(json::field_from, 5);
    lemma_next(
        tools::tool_plan(today, "query_dorm_ele_records"@, args, false),
        Seq::empty(),
        saw("dorm"@, "elePayRecord"@, Seq::empty(), json::Tree::Arr(recs)),
    );
    campus::payments(recs)
}

/// The state of the network account is the host's, with the devices that are online.
pub proof fn law_network_is_the_hosts(
    today: Date,
    args: json::Tree,
    b: json::Tree,
    devices: json::Tree,
) -> (v: json::Tree)
    ensures
        tells(
            today,
            "query_network"@,
            args,
            Seq::empty().push(saw("network"@, "balance"@, Seq::empty(), b)).push(
                saw("network"@, "deviceCount"@, Seq::empty(), devices),
            ),
            v,
        ),
        text_from(v, "productName"@, b, "productName"@),
        value_from(v, "usedBytes"@, b, "usedBytes"@),
        value_from(v, "accountBalance"@, b, "accountBalance"@),
        json::field(v, "onlineDevices"@) == Some(devices),
{
    names::lemma_apart();
    reveal_with_fuel(json::field_from, 5);
    let p = tools::tool_plan(today, "query_network"@, args, false);
    let x = saw("network"@, "balance"@, Seq::empty(), b);
    lemma_next(p, Seq::empty(), x);
    lemma_next(
        p,
        Seq::empty().push(x),
        saw("network"@, "deviceCount"@, Seq::empty(), devices),
    );
    campus::network(b, devices)
}

/// The page of the news that is asked for, the first where none is named.
pub open spec fn page_asked(args: json::Tree, page: json::Tree) -> bool {
    match json::field(args, "page"@) {
        Some(json::Tree::Pos(n)) => page == json::Tree::Pos(
            if n <= i64::MAX {
                n
            } else {
                1
            },
        ),
        Some(json::Tree::Neg(n)) => n < 0 ==> page == json::Tree::Neg(n),
        _ => page == json::Tree::Pos(1),
    }
}

/// News are told with what they are called, their day, source and address; at most
/// twenty of them.
pub open spec fn are_news(v: json::Tree, list: Seq<json::Tree>) -> bool {
    json::field(v, "rows"@) matches Some(json::Tree::Arr(rows)) && rows.len() == if list.len()
        <= 20 {
        list.len()
    } else {
        20
    } && forall|i: int|
        0 <= i < rows.len() ==> {
            let row = #[trigger] rows[i];
            &&& text_from(row, "xxid"@, list[i], "xxid"@)
            &&& text_from(row, "name"@, list[i], "name"@)
            &&& text_from(row, "date"@, list[i], "date"@)
            &&& text_from(row, "source"@, list[i], "source"@)
            &&& text_from(row, "url"@, list[i], "url"@)
        }
}

/// News are searched for the word where there is one, and read in order where there is
/// none; those that one subscribes to are read in order.
pub proof fn law_news_are_the_hosts(
    today: Date,
    name: Seq<char>,
    args: json::Tree,
    list: Seq<json::Tree>,
) -> (r: (json::Tree, json::Tree))
    requires
        name == "query_news"@ || name == "query_subscribed_news"@,
    ensures
        page_asked(args, r.0),
        are_news(r.1, list),
        name == "query_news"@ ==> json::field(r.1, "note"@) == Some(
            json::Tree::Str("每条新闻务必把 url 一并给用户（可点开原文），不要只报标题"@),
        ),
        name == "query_subscribed_news"@ ==> json::field(r.1, "note"@) == Some(
            json::Tree::Str("每条新闻务必把 url 一并给用户（可点开原文）"@),
        ),
        name == "query_news"@ && json::text_at(args, "keyword"@).len() > 0 ==> tells(
            today,
            name,
            args,
            Seq::empty().push(
                saw(
                    "info"@,
                    "searchNews"@,
                    Seq::empty().push(json::Tree::Str(json::text_at(args, "keyword"@))).push(r.0),
                    json::Tree::Arr(list),
                ),
            ),
            r.1,
        ),
        name == "query_news"@ && json::text_at(args, "keyword"@).len() == 0 ==> tells(
            today,
            name,
            args,
            Seq::empty().push(
                saw("info"@, "news"@, Seq::empty().push(r.0), json::Tree::Arr(list)),
            ),
            r.1,
        ),
        name == "query_subscribed_news"@ ==> tells(
            today,
            name,
            args,
            Seq::empty().push(
                saw("info"@, "newsSub"@, Seq::empty().push(r.0), json::Tree::Arr(list)),
            ),
            r.1,
        ),
{
    names::lemma_apart();
    reveal_with_fuel(json::field_from, 6);
    let p = tools::tool_plan(today, name, args, false);
    let page = json::int_tree(campus::page_of(args) as int);
    let all = json::Tree::Arr(list);
    let kw = json::text_at(args, "keyword"@);
    lemma_next(
        p,
        Seq::empty(),
        saw("info"@, "searchNews"@, Seq::empty().push(json::Tree::Str(kw)).push(page), all),
    );
    lemma_next(p, Seq::empty(), saw("info"@, "news"@, Seq::empty().push(page), all));
    lemma_next(p, Seq::empty(), saw("info"@, "newsSub"@, Seq::empty().push(page), all));
    let note = if name == "query_news"@ {
        "每条新闻务必把 url 一并给用户（可点开原文），不要只报标题"@
    } else {
        "每条新闻务必把 url 一并给用户（可点开原文）"@
    };
    (page, campus::news(all, note))
}

/// An article is told whole up to three thousand characters; of a longer one its
/// beginning, and that there is more.
pub proof fn law_article_is_told_from_its_beginning(
    today: Date,
    args: json::Tree,
    t: Seq<char>,
) -> (v: json::Tree)
    ensures
        tells(
            today,
            "read_news_article"@,
            args,
            Seq::empty().push(
                saw(
                    "info"@,
                    "newsDetail"@,
                    Seq::empty().push(json::Tree::Str(json::text_at(args, "news_id"@))),
                    json::Tree::Str(t),
                ),
            ),
            v,
        ),
        t.len() <= 3000 ==> json::field(v, "text"@) == Some(json::Tree::Str(t)),
        t.len() > 3000 ==> json::field(v, "text"@) == Some(
            json::Tree::Str(t.take(3000) + "…（正文过长已截断）"@),
        ),
{
    names::lemma_apart();
    reveal_with_fuel(json::field_from, 2);
    lemma_next(
        tools::tool_plan(today, "read_news_article"@, args, false),
        Seq::empty(),
        saw(
            "info"@,
            "newsDetail"@,
            Seq::empty().push(json::Tree::Str(json::text_at(args, "news_id"@))),
            json::Tree::Str(t),
        ),
    );
    campus::article(json::Tree::Str(t))
}

/// The app goes to the page that is asked for, with the parameters that are given.
pub proof fn law_the_page_asked_for_is_shown(today: Date, args: json::Tree, ok: json::Tree) -> (v:
    json::Tree)
    ensures
        tells(
            today,
            "navigate"@,
            args,
            Seq::empty().push(
                saw(
                    "nav"@,
                    "go"@,
                    Seq::empty().push(json::Tree::Str(json::text_at(args, "page"@))).push(
                        match json::field(args, "params"@) {
                            Some(p) => p,
                            None => json::Tree::Obj(Seq::empty()),
                        },
                    ),
                    ok,
                ),
            ),
            v,
        ),
        json::field(v, "navigated"@) == Some(ok),
{
    names::lemma_apart();
    reveal_with_fuel(json::field_from, 2);
    let params = match json::field(args, "params"@) {
        Some(p) => p,
        None => json::Tree::Obj(Seq::empty()),
    };
    lemma_next(
        tools::tool_plan(today, "navigate"@, args, false),
        Seq::empty(),
        saw(
            "nav"@,
            "go"@,
            Seq::empty().push(json::Tree::Str(json::text_at(args, "page"@))).push(params),
            ok,
        ),
    );
    json::Tree::Obj(json::no_fields().push(("navigated"@, ok)))
}

/// The user is shown the text that is given.
pub proof fn law_the_text_given_is_shown(today: Date, args: json::Tree, any: json::Tree) -> (v:
    json::Tree)
    ensures
        tells(
            today,
            "notify"@,
            args,
            Seq::empty().push(
                saw(
                    "ui"@,
                    "toast"@,
                    Seq::empty().push(json::Tree::Str(json::text_at(args, "text"@))),
                    any,
                ),
            ),
            v,
        ),
        json::field(v, "sent"@) == Some(json::Tree::Bool(true)),
{
    names::lemma_apart();
    reveal_with_fuel(json::field_from, 2);
    lemma_next(
        tools::tool_plan(today, "notify"@, args, false),
        Seq::empty(),
        saw("ui"@, "toast"@, Seq::empty().push(json::Tree::Str(json::text_at(args, "text"@))), any),
    );
    json::Tree::Obj(json::no_fields().push(("sent"@, json::Tree::Bool(true))))
}

/// `name` is what the `d`-th day of the week is called, from Monday on.
pub open spec fn is_nth_day(d: int, name: Seq<char>) -> bool {
    ||| d == 0 && name == "周一"@
    ||| d == 1 && name == "周二"@
    ||| d == 2 && name == "周三"@
    ||| d == 3 && name == "周四"@
    ||| d == 4 && name == "周五"@
    ||| d == 5 && name == "周六"@
    ||| d == 6 && name == "周日"@
}

proof fn lemma_days_differ(d: int, e: int, name: Seq<char>)
    requires
        is_nth_day(d, name),
        is_nth_day(e, name),
    ensures
        d == e,
{
    reveal_strlit("周一");
    reveal_strlit("周二");
    reveal_strlit("周三");
    reveal_strlit("周四");
    reveal_strlit("周五");
    reveal_strlit("周六");
    reveal_strlit("周日");
    assert("周一"@[1] == '一');
    assert("周二"@[1] == '二');
    assert("周三"@[1] == '三');
    assert("周四"@[1] == '四');
    assert("周五"@[1] == '五');
    assert("周六"@[1] == '六');
    assert("周日"@[1] == '日');
}

/// The state of a period is the number that says it is free.
pub open spec fn is_five(state: json::Tree) -> bool {
    match state {
        json::Tree::Pos(n) => n == 5,
        json::Tree::Neg(n) => n == 5,
        _ => false,
    }
}

/// The entry tells, for that day, that period.
pub open spec fn entry_tells(entry: json::Tree, name: Seq<char>, x: u64) -> bool {
    &&& json::field(entry, "day"@) == Some(json::Tree::Str(name))
    &&& json::field(entry, "busyPeriods"@) matches Some(json::Tree::Arr(periods))
        && periods.contains(json::Tree::Pos(x))
}

/// Some entry tells, for that day, that period.
pub open spec fn told_busy(days: Seq<json::Tree>, name: Seq<char>, x: u64) -> bool {
    exists|i: int| 0 <= i < days.len() && entry_tells(#[trigger] days[i], name, x)
}

/// The entry of a day.
pub open spec fn is_entry(entry: json::Tree, states: Seq<json::Tree>, d: int) -> bool {
    entry == json::Tree::Obj(
        json::no_fields().push(("day"@, json::Tree::Str(classrooms::day_name(d)))).push(
            ("busyPeriods"@, json::Tree::Arr(classrooms::busy_periods(states, d))),
        ),
    )
}

/// The entry is that of one of the first `n` days.
pub open spec fn is_some_entry(entry: json::Tree, states: Seq<json::Tree>, n: int) -> bool {
    exists|d: int| 0 <= d < n && #[trigger] is_entry(entry, states, d)
}

proof fn lemma_days(states: Seq<json::Tree>, n: int)
    requires
        0 <= n,
    ensures
        forall|i: int|
            0 <= i < classrooms::busy_days(states, n).len() ==> is_some_entry(
                #[trigger] classrooms::busy_days(states, n)[i],
                states,
                n,
            ),
        forall|d: int|
            0 <= d < n && (#[trigger] classrooms::busy_periods(states, d)).len() > 0 ==> exists|
                i: int,
            |
                0 <= i < classrooms::busy_days(states, n).len() && is_entry(
                    #[trigger] classrooms::busy_days(states, n)[i],
                    states,
                    d,
                ),
    decreases n,
{
    if n > 0 {
        lemma_days(states, n - 1);
        let before = classrooms::busy_days(states, n - 1);
        let now = classrooms::busy_days(states, n);
        assert forall|i: int| 0 <= i < now.len() implies is_some_entry(#[trigger] now[i], states, n) by {
            if i < before.len() {
                assert(now[i] == before[i]);
                assert(is_some_entry(before[i], states, n - 1));
                let d = choose|d: int| 0 <= d < n - 1 && #[trigger] is_entry(before[i], states, d);
                assert(is_entry(now[i], states, d));
            } else {
                assert(is_entry(now[i], states, n - 1));
            }
        }
        assert forall|d: int|
            0 <= d < n && (#[trigger] classrooms::busy_periods(states, d)).len() > 0 implies exists|
            i: int,
        |
            0 <= i < now.len() && is_entry(#[trigger] now[i], states, d) by {
            if d < n - 1 {
                let i = choose|i: int|
                    0 <= i < before.len() && is_entry(#[trigger] before[i], states, d);
                assert(now[i] == before[i]);
            } else {
                assert(is_entry(now[now.len() - 1], states, d));
            }
        }
    }
}

/// A week has seven days of six periods each, from Monday on. A period is told as busy,
/// under the name of its day, exactly where its state is not the one of a free period.
pub proof fn law_busy_periods_are_told_by_day(
    states: Seq<json::Tree>,
    d: int,
    name: Seq<char>,
    x: u64,
)
    requires
        is_nth_day(d, name),
        1 <= x <= 6,
    ensures
        told_busy(classrooms::busy_days(states, 7), name, x) <==> 6 * d + x - 1 < states.len()
            && !is_five(states[6 * d + x - 1]),
{
    names::lemma_apart();
    reveal_with_fuel(json::field_from, 3);
    classrooms::law_told_periods_are_the_taken_ones(states, d, x);
    lemma_days(states, 7);
    let days = classrooms::busy_days(states, 7);
    let periods = classrooms::busy_periods(states, d);
    if told_busy(days, name, x) {
        let i = choose|i: int| 0 <= i < days.len() && entry_tells(#[trigger] days[i], name, x);
        assert(is_some_entry(days[i], states, 7));
        let e = choose|e: int| 0 <= e < 7 && #[trigger] is_entry(days[i], states, e);
        assert(is_nth_day(e, classrooms::day_name(e)));
        lemma_days_differ(d, e, name);
    }
    if periods.contains(json::Tree::Pos(x)) {
        assert(periods.len() > 0);
        let i = choose|i: int| 0 <= i < days.len() && is_entry(#[trigger] days[i], states, d);
        assert(entry_tells(days[i], name, x));
    }
}

/// The building that is asked for is the first whose name, or the name it is searched
/// by, holds the word; its rooms are told for the week that is asked for, or for the one
/// that the building is at, at most sixty of them, each with its size and its busy
/// periods.
pub proof fn law_classrooms_are_the_buildings(
    today: Date,
    args: json::Tree,
    list: Seq<json::Tree>,
    i: int,
    week: json::Tree,
    st: json::Tree,
    rooms: Seq<json::Tree>,
) -> (v: json::Tree)
    requires
        0 <= i < list.len(),
        forall|k: int|
            0 <= k < i ==> !text::occurs(
                json::text_at(#[trigger] list[k], "name"@),
                json::text_at(args, "building"@),
            ) && !text::occurs(
                json::text_at(list[k], "searchName"@),
                json::text_at(args, "building"@),
            ),
        text::occurs(json::text_at(list[i], "name"@), json::text_at(args, "building"@))
            || text::occurs(json::text_at(list[i], "searchName"@), json::text_at(args, "building"@)),
        match json::field(args, "week"@) {
            Some(json::Tree::Pos(n)) => n <= i64::MAX && week == json::Tree::Pos(n),
            Some(json::Tree::Neg(n)) => n < 0 && week == json::Tree::Neg(n),
            _ => json::field(list[i], "weekNumber"@) == Some(week) && (week matches json::Tree::Pos(n)
                && n <= i64::MAX),
        },
        json::field(st, "classroomStates"@) == Some(json::Tree::Arr(rooms)),
    ensures
        tells(
            today,
            "query_empty_classrooms"@,
            args,
            Seq::empty().push(
                saw("info"@, "classroomList"@, Seq::empty(), json::Tree::Arr(list)),
            ).push(
                saw(
                    "info"@,
                    "classroomState"@,
                    Seq::empty().push(json::Tree::Str(json::text_at(list[i], "name"@))).push(week),
                    st,
                ),
            ),
            v,
        ),
        text_from(v, "building"@, list[i], "name"@),
        json::field(v, "week"@) == Some(week),
        json::field(v, "rooms"@) matches Some(json::Tree::Arr(rows)) && rows.len() == if rooms.len()
            <= 60 {
            rooms.len()
        } else {
            60
        } && forall|k: int| 0 <= k < rows.len() ==> #[trigger] is_room(rows[k], rooms[k], k),
{
    names::lemma_apart();
    reveal_with_fuel(json::field_from, 5);
    let p = tools::tool_plan(today, "query_empty_classrooms"@, args, false);
    let word = json::text_at(args, "building"@);
    lemma_called(list, word, i, 0);
    let a = saw("info"@, "classroomList"@, Seq::empty(), json::Tree::Arr(list));
    let b = saw(
        "info"@,
        "classroomState"@,
        Seq::empty().push(json::Tree::Str(json::text_at(list[i], "name"@))).push(week),
        st,
    );
    lemma_next(p, Seq::empty(), a);
    lemma_next(p, Seq::empty().push(a), b);
    let v = classrooms::building(list[i], classrooms::week_of(args, list[i]), st);
    let rows = json::elements_of(json::field(v, "rooms"@));
    assert forall|k: int| 0 <= k < rows.len() implies #[trigger] is_room(rows[k], rooms[k], k) by {
        assert(rows[k] == classrooms::room_row()(k, rooms[k]));
        let states = json::elements_of(json::field(rooms[k], "status"@));
        assert forall|d: int, name: Seq<char>, x: u64|
            is_nth_day(d, name) && 1 <= x <= 6 implies (#[trigger] told_at(rows[k], d, name, x) <==> 6
            * d + x - 1 < states.len() && !is_five(states[6 * d + x - 1])) by {
            law_busy_periods_are_told_by_day(states, d, name, x);
        }
    }
    v
}

proof fn lemma_called(list: Seq<json::Tree>, word: Seq<char>, i: int, k: int)
    requires
        0 <= k <= i < list.len(),
        forall|k: int|
            0 <= k < i ==> !text::occurs(json::text_at(#[trigger] list[k], "name"@), word)
                && !text::occurs(json::text_at(list[k], "searchName"@), word),
        text::occurs(json::text_at(list[i], "name"@), word) || text::occurs(
            json::text_at(list[i], "searchName"@),
            word,
        ),
    ensures
        classrooms::called_from(list, word, k) == i,
    decreases i - k,
{
    if k < i {
        lemma_called(list, word, i, k + 1);
    }
}

/// The row tells that period of the `d`-th day, of that name, as busy.
pub open spec fn told_at(row: json::Tree, d: int, name: Seq<char>, x: u64) -> bool {
    &&& is_nth_day(d, name)
    &&& json::field(row, "busyByDay"@) matches Some(json::Tree::Arr(days)) && told_busy(
        days,
        name,
        x,
    )
}

/// The row is that of the `k`-th room: its name, or its number where it has none, its
/// size, and its periods that are not free.
pub open spec fn is_room(row: json::Tree, room: json::Tree, k: int) -> bool {
    let states = json::elements_of(json::field(room, "status"@));
    &&& json::field(row, "room"@) == Some(
        json::Tree::Str(
            if json::text_at(room, "name"@).len() > 0 {
                json::text_at(room, "name"@)
            } else {
                "教室"@ + text::decimal(k as nat)
            },
        ),
    )
    &&& number_from(row, "capacity"@, room, "capacity"@)
    &&& json::field(row, "busyByDay"@) matches Some(json::Tree::Arr(_))
    &&& json::field(row, "freeNote"@) == Some(
        json::Tree::Str("busyByDay=被占用的大节（每格≈两大节）；未列出的天/节次均空闲"@),
    )
    &&& forall|d: int, name: Seq<char>, x: u64|
        is_nth_day(d, name) && 1 <= x <= 6 ==> (#[trigger] told_at(row, d, name, x) <==> 6 * d + x
            - 1 < states.len() && !is_five(states[6 * d + x - 1]))
}

/// Where no building has the word in its name, or in the name it is searched by, the
/// names of all are told.
pub proof fn law_no_such_building_is_told(
    today: Date,
    args: json::Tree,
    list: Seq<json::Tree>,
    all: Seq<Seq<char>>,
)
    requires
        forall|k: int|
            0 <= k < list.len() ==> !text::occurs(
                json::text_at(#[trigger] list[k], "name"@),
                json::text_at(args, "building"@),
            ) && !text::occurs(
                json::text_at(list[k], "searchName"@),
                json::text_at(args, "building"@),
            ),
        all.len() == list.len(),
        forall|k: int| 0 <= k < all.len() ==> #[trigger] all[k] == json::text_at(list[k], "name"@),
    ensures
        plan::rest(
            tools::tool_plan(today, "query_empty_classrooms"@, args, false),
            Seq::empty().push(
                saw("info"@, "classroomList"@, Seq::empty(), json::Tree::Arr(list)),
            ),
        ) == Some(
            plan::Plan::Done(
                Err(
                    "找不到楼栋「"@ + json::text_at(args, "building"@) + "」，可用："@
                        + text::joined(all, "、"@),
                ),
            ),
        ),
{
    names::lemma_apart();
    let word = json::text_at(args, "building"@);
    lemma_uncalled(list, word, 0);
    lemma_next(
        tools::tool_plan(today, "query_empty_classrooms"@, args, false),
        Seq::empty(),
        saw("info"@, "classroomList"@, Seq::empty(), json::Tree::Arr(list)),
    );
    assert(plan::names(list, "name"@) =~= all);
}

proof fn lemma_uncalled(list: Seq<json::Tree>, word: Seq<char>, k: int)
    requires
        0 <= k <= list.len(),
        forall|k: int|
            0 <= k < list.len() ==> !text::occurs(json::text_at(#[trigger] list[k], "name"@), word)
                && !text::occurs(json::text_at(list[k], "searchName"@), word),
    ensures
        classrooms::called_from(list, word, k) == list.len(),
    decreases list.len() - k,
{
    if k < list.len() {
        lemma_uncalled(list, word, k + 1);
    }
}

/// A tool that is none is refused by its name.
pub proof fn law_no_such_tool_is_told(today: Date, name: Seq<char>, args: json::Tree, confirmed: bool)
    requires
        !defs::offered(name),
    ensures
        plan::rest(tools::tool_plan(today, name, args, confirmed), Seq::empty()) == Some(
            plan::Plan::Done(Err("未知工具："@ + name)),
        ),
{
    laws::law_no_other_tool_is_known(today, name, args, confirmed);
}

proof fn lemma_period_numbers(states: Seq<json::Tree>, day: int)
    ensures
        forall|i: int|
            0 <= i < classrooms::busy_periods(states, day).len() ==> {
                &&& (#[trigger] classrooms::busy_periods(states, day)[i]) is Pos
                &&& 1 <= classrooms::busy_periods(states, day)[i]->Pos_0 <= 6
                &&& 6 * day + classrooms::busy_periods(states, day)[i]->Pos_0 <= states.len()
            },
        forall|i: int, j: int|
            0 <= i < j < classrooms::busy_periods(states, day).len() ==> (
            #[trigger] classrooms::busy_periods(states, day)[i])->Pos_0 < (
            #[trigger] classrooms::busy_periods(states, day)[j])->Pos_0,
    decreases states.len(),
{
    if states.len() > 0 {
        let before = classrooms::busy_periods(states.drop_last(), day);
        let now = classrooms::busy_periods(states, day);
        let p = states.len() - 1;
        lemma_period_numbers(states.drop_last(), day);
        assert forall|i: int| 0 <= i < now.len() implies {
            &&& (#[trigger] now[i]) is Pos
            &&& 1 <= now[i]->Pos_0 <= 6
            &&& 6 * day + now[i]->Pos_0 <= states.len()
        } by {
            if i < before.len() {
                assert(now[i] == before[i]);
            }
        }
        assert forall|i: int, j: int| 0 <= i < j < now.len() implies (#[trigger] now[i])->Pos_0 < (
        #[trigger] now[j])->Pos_0 by {
            assert(now[i] == before[i]);
            if j < before.len() {
                assert(now[j] == before[j]);
            } else {
                assert(6 * day + before[i]->Pos_0 <= p);
            }
        }
    }
}

/// The entry is that of the `d`-th day: it has busy periods, in order, each one of the six.
pub open spec fn is_day_entry(entry: json::Tree, d: int) -> bool {
    &&& json::field(entry, "day"@) matches Some(json::Tree::Str(name)) && is_nth_day(d, name)
    &&& json::field(entry, "busyPeriods"@) matches Some(json::Tree::Arr(periods)) && periods.len()
        > 0 && (forall|i: int|
        0 <= i < periods.len() ==> (#[trigger] periods[i]) is Pos && 1 <= periods[i]->Pos_0 <= 6)
        && forall|i: int, j: int|
        0 <= i < j < periods.len() ==> (#[trigger] periods[i])->Pos_0 < (
        #[trigger] periods[j])->Pos_0
}

/// The entries are those of these days.
pub open spec fn are_day_entries(entries: Seq<json::Tree>, at: Seq<int>) -> bool {
    forall|i: int| 0 <= i < at.len() ==> is_day_entry(#[trigger] entries[i], at[i])
}

/// Days without a busy period are not told; the others are told once each, in the order of
/// the week, each with its periods in order.
pub proof fn law_busy_days_are_told_in_order(states: Seq<json::Tree>, n: int) -> (at: Seq<int>)
    requires
        0 <= n <= 7,
    ensures
        at.len() == classrooms::busy_days(states, n).len(),
        are_day_entries(classrooms::busy_days(states, n), at),
        forall|i: int| 0 <= i < at.len() ==> 0 <= #[trigger] at[i] < n,
        forall|i: int, j: int| 0 <= i < j < at.len() ==> (#[trigger] at[i]) < (#[trigger] at[j]),
    decreases n,
{
    if n == 0 {
        Seq::empty()
    } else {
        let before = law_busy_days_are_told_in_order(states, n - 1);
        let days = classrooms::busy_days(states, n - 1);
        let now = classrooms::busy_days(states, n);
        let more = classrooms::busy_periods(states, n - 1).len() > 0;
        let at = if more {
            before.push(n - 1)
        } else {
            before
        };
        if more {
            names::lemma_apart();
            reveal_with_fuel(json::field_from, 3);
            lemma_period_numbers(states, n - 1);
            assert(is_nth_day(n - 1, classrooms::day_name(n - 1)));
            assert(is_day_entry(now[now.len() - 1], n - 1));
        }
        assert forall|i: int| 0 <= i < at.len() implies is_day_entry(#[trigger] now[i], at[i]) by {
            if i < before.len() {
                assert(now[i] == days[i]);
                assert(at[i] == before[i]);
                assert(is_day_entry(days[i], before[i]));
            }
        }
        assert(are_day_entries(now, at));
        assert forall|i: int| 0 <= i < at.len() implies 0 <= #[trigger] at[i] < n by {
            if i < before.len() {
                assert(at[i] == before[i]);
            }
        }
        assert forall|i: int, j: int| 0 <= i < j < at.len() implies (#[trigger] at[i]) < (
        #[trigger] at[j]) by {
            assert(at[i] == before[i]);
            if j < before.len() {
                assert(at[j] == before[j]);
            }
        }
        at
    }
}

} // verus!
