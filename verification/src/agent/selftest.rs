//! A test of the agent by itself, without the network: days, times, the trimming of a
//! history, and prices.

use crate::config;
use crate::date;
use crate::date::Date;
use crate::json;
use crate::json::{Arr, Json, Rec};
use crate::session;
use crate::session::Msg;
use crate::text;
use vstd::prelude::*;

verus! {

/// `n` times the same text.
pub open spec fn repeated(s: Seq<char>, n: nat) -> Seq<char>
    decreases n,
{
    if n == 0 {
        Seq::empty()
    } else {
        repeated(s, (n - 1) as nat) + s
    }
}

fn repeat(s: &str, n: usize) -> (r: String)
    ensures
        r@ == repeated(s@, n as nat),
{
    let mut out = String::new();
    let mut i: usize = 0;
    while i < n
        invariant
            i <= n,
            out@ == repeated(s@, i as nat),
        decreases n - i,
    {
        out.append(s);
        i += 1;
    }
    out
}

/// A history that is far too long for a budget of 200.
pub open spec fn sample() -> Seq<session::MsgV> {
    Seq::<session::MsgV>::empty().push(
        session::plain_msg("system"@, repeated("sys"@, 10)),
    ).push(session::plain_msg("user"@, repeated("长"@, 500))).push(
        session::plain_msg("assistant"@, repeated("长"@, 500)),
    ).push(session::plain_msg("user"@, "最新问题"@))
}

/// What is tried, and whether it holds on the day `today`. That the prices come out
/// right is for the caller to say.
pub open spec fn trials(today: Date, priced: bool) -> Seq<(Seq<char>, bool)> {
    let trimmed = session::trimmed_history(sample(), 200);
    Seq::<(Seq<char>, bool)>::empty().push(
        ("resolve 明天"@, config::resolved(today, "明天"@) == Some(today.number() + 1)),
    ).push(("resolve 今天"@, config::resolved(today, "今天"@) == Some(today.number()))).push(
        ("resolve YYYY-MM-DD"@, config::resolved(today, "2025-09-08"@) is Some),
    ).push(("resolve M月D日"@, config::resolved(today, "9月8日"@) is Some)).push(
        ("hhmm 14:30"@, config::clock_time("14:30"@) == Some((14u32, 30u32))),
    ).push(("hhmm 下午2点半"@, config::clock_time("下午2点半"@) == Some((14u32, 30u32)))).push(
        ("dateChoice 明天=1"@, config::choice(today, "明天"@) == Ok::<u8, Seq<char>>(1)),
    ).push(
        (
            "trim 保留最新"@,
            trimmed.len() > 0 && trimmed.last().content == Some("最新问题"@),
        ),
    ).push(("价格换算 0.27/1.10"@, priced))
}

pub open spec fn trial_row(t: (Seq<char>, bool)) -> json::Tree {
    json::Tree::Obj(
        json::no_fields().push(("name"@, json::Tree::Str(t.0))).push(
            ("ok"@, json::Tree::Bool(t.1)),
        ),
    )
}

pub open spec fn trial_rows(t: Seq<(Seq<char>, bool)>) -> Seq<json::Tree> {
    t.map_values(|x: (Seq<char>, bool)| trial_row(x))
}

/// How many of them hold.
pub open spec fn passed(t: Seq<(Seq<char>, bool)>) -> nat
    decreases t.len(),
{
    if t.len() == 0 {
        0
    } else {
        passed(t.drop_last()) + (if t.last().1 {
            1nat
        } else {
            0nat
        })
    }
}

pub open spec fn report(today: Date, priced: bool) -> json::Tree {
    let t = trials(today, priced);
    json::Tree::Obj(
        json::no_fields().push(("type"@, json::Tree::Str("selftest"@))).push(
            ("ok"@, json::Tree::Bool(passed(t) == t.len())),
        ).push(("pass"@, json::Tree::Pos(passed(t) as u64))).push(
            ("total"@, json::Tree::Pos(t.len() as u64)),
        ).push(("results"@, json::Tree::Arr(trial_rows(t)))).push(
            ("today"@, json::Tree::Str(today.text())),
        ).push(("estTokens"@, json::Tree::Pos(config::tokens("hello 你好"@) as u64))),
    )
}

/// Trials under way.
struct Trials {
    rows: Arr,
    pass: usize,
    total: usize,
    all: Ghost<Seq<(Seq<char>, bool)>>,
}

impl Trials {
    closed spec fn wf(&self) -> bool {
        &&& self.rows@ == trial_rows(self.all@)
        &&& self.total == self.all@.len()
        &&& self.pass == passed(self.all@)
        &&& self.pass <= self.total
    }

    fn new() -> (r: Trials)
        ensures
            r.wf(),
            r.all@ == Seq::<(Seq<char>, bool)>::empty(),
    {
        let r = Trials { rows: Arr::new(), pass: 0, total: 0, all: Ghost(Seq::empty()) };
        assert(trial_rows(r.all@) =~= json::no_items());
        r
    }

    fn add(self, name: &str, ok: bool) -> (r: Trials)
        requires
            self.wf(),
            self.all@.len() < 100,
        ensures
            r.wf(),
            r.all@ == self.all@.push((name@, ok)),
    {
        let ghost before = self.all@;
        let ghost now = before.push((name@, ok));
        let row = Rec::new().text("name", name).flag("ok", ok).done();
        let r = Trials {
            rows: self.rows.with(row),
            pass: if ok { self.pass + 1 } else { self.pass },
            total: self.total + 1,
            all: Ghost(now),
        };
        assert(trial_rows(now) =~= trial_rows(before).push(trial_row((name@, ok))));
        assert(now.drop_last() =~= before);
        r
    }
}

fn falls_on(today: Date, phrase: &str, days: i64) -> (r: bool)
    requires
        today.wf(),
    ensures
        r == (config::resolved(today, phrase@) == Some(today.number() + days)),
{
    match config::resolve_date_on(today, phrase) {
        Some(d) => date::number_of(d) as i64 - date::number_of(today) as i64 == days,
        None => false,
    }
}

fn is_half_past_two(phrase: &str) -> (r: bool)
    ensures
        r == (config::clock_time(phrase@) == Some((14u32, 30u32))),
{
    match config::resolve_hhmm(phrase) {
        Some((h, m)) => h == 14 && m == 30,
        None => false,
    }
}

fn keeps_newest() -> (r: bool)
    ensures
        r == ({
            let trimmed = session::trimmed_history(sample(), 200);
            trimmed.len() > 0 && trimmed.last().content == Some("最新问题"@)
        }),
{
    let mut msgs: Vec<Msg> = Vec::new();
    msgs.push(Msg::system(repeat("sys", 10).as_str()));
    msgs.push(Msg::user(repeat("长", 500).as_str()));
    msgs.push(Msg::assistant(repeat("长", 500).as_str()));
    msgs.push(Msg::user("最新问题"));
    assert(session::msgs_of(msgs@) =~= sample());
    session::trim_history(&mut msgs, 200);
    let ghost trimmed = session::msgs_of(msgs@);
    assert(trimmed.len() == msgs@.len());
    if msgs.len() == 0 {
        return false;
    }
    let last = &msgs[msgs.len() - 1];
    assert(trimmed.last() == last@);
    match &last.content {
        Some(c) => text::same(c.as_str(), "最新问题"),
        None => false,
    }
}

/// Tests the agent on the day `today`; `priced` says whether a million tokens in and a
/// hundred thousand out cost 0.38 at 0.27 and 1.10 a million.
pub fn selftest(today: Date, priced: bool) -> (r: Json)
    requires
        today.wf(),
    ensures
        r@ == report(today, priced),
{
    let tomorrow = match config::date_choice_on(today, "明天") {
        Ok(n) => n == 1,
        Err(_) => false,
    };
    let t = Trials::new().add("resolve 明天", falls_on(today, "明天", 1)).add(
        "resolve 今天",
        falls_on(today, "今天", 0),
    ).add(
        "resolve YYYY-MM-DD",
        config::resolve_date_on(today, "2025-09-08").is_some(),
    ).add("resolve M月D日", config::resolve_date_on(today, "9月8日").is_some()).add(
        "hhmm 14:30",
        is_half_past_two("14:30"),
    ).add("hhmm 下午2点半", is_half_past_two("下午2点半")).add("dateChoice 明天=1", tomorrow).add(
        "trim 保留最新",
        keeps_newest(),
    ).add("价格换算 0.27/1.10", priced);
    assert(t.all@ == trials(today, priced));
    proof {
        reveal_strlit("hello 你好");
    }
    Rec::new().text("type", "selftest").flag("ok", t.pass == t.total).count(
        "pass",
        t.pass,
    ).count("total", t.total).with("results", t.rows.done()).text(
        "today",
        date::date_text(today).as_str(),
    ).count("estTokens", config::est_tokens("hello 你好")).done()
}

proof fn lemma_passed(t: Seq<(Seq<char>, bool)>)
    ensures
        passed(t) <= t.len(),
        passed(t) == t.len() <==> forall|i: int| 0 <= i < t.len() ==> (#[trigger] t[i]).1,
    decreases t.len(),
{
    if t.len() > 0 {
        let before = t.drop_last();
        lemma_passed(before);
        if forall|i: int| 0 <= i < t.len() ==> (#[trigger] t[i]).1 {
            assert forall|i: int| 0 <= i < before.len() implies (#[trigger] before[i]).1 by {
                assert(before[i] == t[i]);
            }
        }
        if passed(t) == t.len() {
            assert forall|i: int| 0 <= i < t.len() implies (#[trigger] t[i]).1 by {
                if i < before.len() {
                    assert(before[i] == t[i]);
                }
            }
        }
    }
}

/// The report says that all is well exactly where each of its nine results does, and how
/// many do.
pub proof fn law_the_report_sums_its_results(today: Date, priced: bool)
    ensures
        ({
            let v = report(today, priced);
            &&& json::field(v, "type"@) == Some(json::Tree::Str("selftest"@))
            &&& json::field(v, "total"@) == Some(json::Tree::Pos(9))
            &&& json::field(v, "today"@) == Some(json::Tree::Str(today.text()))
            &&& json::field(v, "results"@) matches Some(json::Tree::Arr(rows)) && rows.len() == 9
                && json::field(v, "ok"@) == Some(
                json::Tree::Bool(
                    forall|i: int|
                        0 <= i < 9 ==> json::field(#[trigger] rows[i], "ok"@) == Some(
                            json::Tree::Bool(true),
                        ),
                ),
            )
        }),
{
    json::names::lemma_apart();
    reveal_with_fuel(json::field_from, 8);
    let t = trials(today, priced);
    lemma_passed(t);
    let rows = trial_rows(t);
    assert(t.len() == 9);
    assert forall|i: int| 0 <= i < 9 implies json::field(#[trigger] rows[i], "ok"@) == Some(
        json::Tree::Bool(t[i].1),
    ) by {
        assert(rows[i] == trial_row(t[i]));
    }
    if forall|i: int| 0 <= i < 9 ==> json::field(#[trigger] rows[i], "ok"@) == Some(
        json::Tree::Bool(true),
    ) {
        assert forall|i: int| 0 <= i < t.len() implies (#[trigger] t[i]).1 by {
            assert(json::field(rows[i], "ok"@) == Some(json::Tree::Bool(true)));
        }
    } else {
        let i = choose|i: int|
            0 <= i < 9 && json::field(#[trigger] rows[i], "ok"@) != Some(json::Tree::Bool(true));
        assert(!t[i].1);
    }
}

/// On a day that has a tomorrow, the trials of today, of tomorrow and of the choice of a
/// day hold.
pub proof fn law_the_trials_of_days_hold(today: Date, priced: bool)
    requires
        today.wf(),
        date::existing(today.number() + 1) is Some,
    ensures
        trials(today, priced)[0] == ("resolve 明天"@, true),
        trials(today, priced)[1] == ("resolve 今天"@, true),
        trials(today, priced)[6] == ("dateChoice 明天=1"@, true),
        trials(today, priced)[8] == ("价格换算 0.27/1.10"@, priced),
{
    date::lemma_in_calendar(today);
    config::days::law_days_with_a_name(today, 1, "明天"@, "上午"@);
    config::days::law_days_with_a_name(today, 0, "今天"@, "上午"@);
}

/// What is tried goes by these names, and each result is that of its trial.
pub proof fn law_the_trials_have_their_names(today: Date, priced: bool)
    ensures
        trials(today, priced)[0].0 == "resolve 明天"@,
        trials(today, priced)[1].0 == "resolve 今天"@,
        trials(today, priced)[2].0 == "resolve YYYY-MM-DD"@,
        trials(today, priced)[3].0 == "resolve M月D日"@,
        trials(today, priced)[4].0 == "hhmm 14:30"@,
        trials(today, priced)[5].0 == "hhmm 下午2点半"@,
        trials(today, priced)[6].0 == "dateChoice 明天=1"@,
        trials(today, priced)[7].0 == "trim 保留最新"@,
        trials(today, priced)[8].0 == "价格换算 0.27/1.10"@,
        trials(today, priced).len() == 9,
        trials(today, priced)[2].1 <==> config::resolved(today, "2025-09-08"@) is Some,
        trials(today, priced)[3].1 <==> config::resolved(today, "9月8日"@) is Some,
        trials(today, priced)[4].1 <==> config::clock_time("14:30"@) == Some((14u32, 30u32)),
        trials(today, priced)[5].1 <==> config::clock_time("下午2点半"@) == Some((14u32, 30u32)),
{
}

} // verus!
