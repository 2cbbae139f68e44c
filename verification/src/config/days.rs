//! What the days that are named mean.

use crate::config;
use crate::date;
use crate::date::Date;
use crate::text;
use vstd::prelude::*;

verus! {

/// `x` names the `w`-th day of the week, from Monday on.
pub open spec fn is_weekday_word(w: int, x: Seq<char>) -> bool {
    ||| w == 0 && (x == "一"@ || x == "1"@)
    ||| w == 1 && (x == "二"@ || x == "2"@)
    ||| w == 2 && (x == "三"@ || x == "3"@)
    ||| w == 3 && (x == "四"@ || x == "4"@)
    ||| w == 4 && (x == "五"@ || x == "5"@)
    ||| w == 5 && (x == "六"@ || x == "6"@)
    ||| w == 6 && (x == "日"@ || x == "天"@ || x == "7"@)
}

/// The words for the week.
pub open spec fn is_week_word(u: Seq<char>) -> bool {
    u == "周"@ || u == "星期"@ || u == "礼拜"@
}

/// `p` before the word for the week says which week it is, counted from this one; nothing
/// before it leaves that open.
pub open spec fn is_week_before(p: Seq<char>, u: Seq<char>, weeks: Option<int>) -> bool {
    ||| p.len() == 0 && weeks is None
    ||| p == "下下"@ && weeks == Some(2int)
    ||| p == "下"@ && weeks == Some(1int)
    ||| p == "上"@ && weeks == Some(-1int)
    ||| p == "本"@ && weeks == Some(0int)
    ||| p == "这"@ && u == "周"@ && weeks == Some(0int)
}

/// The day of the week `w`: in the week that is named, or the first from `t` on.
pub open spec fn weekday_from(t: Date, weeks: Option<int>, w: int) -> int {
    match weeks {
        Some(k) => t.number() - t.weekday() + 7 * k + w,
        None => t.number() + (w - t.weekday() + 7) % 7,
    }
}

proof fn lemma_no_prefix(p: Seq<char>, s: Seq<char>, i: int)
    requires
        0 <= i < p.len(),
        i < s.len() ==> p[i] != s[i],
    ensures
        !p.is_prefix_of(s),
{
    if p.is_prefix_of(s) {
        assert(p[i] == s.subrange(0, p.len() as int)[i]);
    }
}

proof fn lemma_prefix(p: Seq<char>, r: Seq<char>)
    ensures
        p.is_prefix_of(p + r),
        (p + r).skip(p.len() as int) == r,
        config::rest_after(p + r, p) == Some(r),
{
    assert(p =~= (p + r).subrange(0, p.len() as int));
    assert((p + r).skip(p.len() as int) =~= r);
}

/// A name of a weekday is one character, and no mark.
proof fn lemma_word(w: int, x: Seq<char>)
    requires
        is_weekday_word(w, x),
    ensures
        x.len() == 1,
        0 <= w <= 6,
        config::weekday_named(x) == Some(w),
        !text::is_white(x[0]),
        x[0] != '，' && x[0] != '。' && x[0] != '月' && x[0] != '-' && x[0] != '/' && x[0] != '午'
            && x[0] != '上' && x[0] != '星' && x[0] != '礼' && x[0] != '周',
{
    reveal_strlit("一");
    reveal_strlit("二");
    reveal_strlit("三");
    reveal_strlit("四");
    reveal_strlit("五");
    reveal_strlit("六");
    reveal_strlit("日");
    reveal_strlit("天");
    reveal_strlit("1");
    reveal_strlit("2");
    reveal_strlit("3");
    reveal_strlit("4");
    reveal_strlit("5");
    reveal_strlit("6");
    reveal_strlit("7");
    assert("一"@[0] == '一' && "二"@[0] == '二' && "三"@[0] == '三' && "四"@[0] == '四');
    assert("五"@[0] == '五' && "六"@[0] == '六' && "日"@[0] == '日' && "天"@[0] == '天');
    assert("1"@[0] == '1' && "2"@[0] == '2' && "3"@[0] == '3' && "4"@[0] == '4');
    assert("5"@[0] == '5' && "6"@[0] == '6' && "7"@[0] == '7');
}

/// The letters of the words for the week, and of those before them.
proof fn lemma_letters()
    ensures
        "周"@.len() == 1 && "周"@[0] == '周',
        "星期"@.len() == 2 && "星期"@[0] == '星' && "星期"@[1] == '期',
        "礼拜"@.len() == 2 && "礼拜"@[0] == '礼' && "礼拜"@[1] == '拜',
        "下下"@.len() == 2 && "下下"@[0] == '下' && "下下"@[1] == '下',
        "下"@.len() == 1 && "下"@[0] == '下',
        "上"@.len() == 1 && "上"@[0] == '上',
        "本"@.len() == 1 && "本"@[0] == '本',
        "这"@.len() == 1 && "这"@[0] == '这',
        "下下周"@.len() == 3 && "下下周"@[0] == '下' && "下下周"@[1] == '下' && "下下周"@[2] == '周',
        "下周"@.len() == 2 && "下周"@[0] == '下' && "下周"@[1] == '周',
        "上周"@.len() == 2 && "上周"@[0] == '上' && "上周"@[1] == '周',
        "本周"@.len() == 2 && "本周"@[0] == '本' && "本周"@[1] == '周',
        "这周"@.len() == 2 && "这周"@[0] == '这' && "这周"@[1] == '周',
{
    reveal_strlit("周");
    reveal_strlit("星期");
    reveal_strlit("礼拜");
    reveal_strlit("下下");
    reveal_strlit("下");
    reveal_strlit("上");
    reveal_strlit("本");
    reveal_strlit("这");
    reveal_strlit("下下周");
    reveal_strlit("下周");
    reveal_strlit("上周");
    reveal_strlit("本周");
    reveal_strlit("这周");
}

/// The word for the week with what follows it.
proof fn lemma_unit(u: Seq<char>, r: Seq<char>)
    requires
        is_week_word(u),
    ensures
        config::unit_weekday(u + r) == config::weekday_named(r),
{
    lemma_letters();
    lemma_prefix(u, r);
    let s = u + r;
    assert(s[0] == u[0]);
    if u == "礼拜"@ {
        lemma_no_prefix("星期"@, s, 0);
    }
    if u == "周"@ {
        lemma_no_prefix("星期"@, s, 0);
        lemma_no_prefix("礼拜"@, s, 0);
    }
}

/// The word for the week, with nothing before it.
proof fn lemma_no_week(u: Seq<char>, r: Seq<char>)
    requires
        is_week_word(u),
        config::weekday_named(r) is Some || config::unit_weekday(r) is None,
    ensures
        config::week_phrase(u + r) == config::in_week(None, config::weekday_named(r)),
{
    lemma_letters();
    lemma_unit(u, r);
    let s = u + r;
    assert(s[0] == u[0]);
    lemma_no_prefix("下下周"@, s, 0);
    lemma_no_prefix("下周"@, s, 0);
    lemma_no_prefix("上周"@, s, 0);
    lemma_no_prefix("本周"@, s, 0);
    lemma_no_prefix("这周"@, s, 0);
    lemma_no_prefix("下下"@, s, 0);
    lemma_no_prefix("下"@, s, 0);
    lemma_no_prefix("上"@, s, 0);
    lemma_no_prefix("本"@, s, 0);
}

/// The week after the next.
proof fn lemma_week_after_next(u: Seq<char>, r: Seq<char>)
    requires
        is_week_word(u),
        config::weekday_named(r) is Some || config::unit_weekday(r) is None,
    ensures
        config::week_phrase("下下"@ + u + r) == config::in_week(Some(2int), config::weekday_named(r)),
{
    lemma_letters();
    lemma_unit(u, r);
    let p = "下下"@;
    let s = p + u + r;
    assert(s =~= p + (u + r));
    lemma_prefix(p, u + r);
    lemma_prefix(p + u, r);
    assert(s[0] == p[0]);
    assert(s[1] == p[1]);
    assert(s[2] == u[0]);
    if u == "周"@ {
        assert(p + u =~= "下下周"@);
    } else {
        lemma_no_prefix("下下周"@, s, 2);
        lemma_no_prefix("下周"@, s, 1);
        lemma_no_prefix("上周"@, s, 0);
        lemma_no_prefix("本周"@, s, 0);
        lemma_no_prefix("这周"@, s, 0);
    }
}

/// The next week.
proof fn lemma_next_week(u: Seq<char>, r: Seq<char>)
    requires
        is_week_word(u),
        config::weekday_named(r) is Some || config::unit_weekday(r) is None,
    ensures
        config::week_phrase("下"@ + u + r) == config::in_week(Some(1int), config::weekday_named(r)),
{
    lemma_letters();
    lemma_unit(u, r);
    let p = "下"@;
    let s = p + u + r;
    assert(s =~= p + (u + r));
    lemma_prefix(p, u + r);
    lemma_prefix(p + u, r);
    assert(s[0] == p[0]);
    assert(s[1] == u[0]);
    lemma_no_prefix("下下周"@, s, 1);
    if u == "周"@ {
        assert(p + u =~= "下周"@);
    } else {
        lemma_no_prefix("下周"@, s, 1);
        lemma_no_prefix("上周"@, s, 0);
        lemma_no_prefix("本周"@, s, 0);
        lemma_no_prefix("这周"@, s, 0);
        lemma_no_prefix("下下"@, s, 1);
    }
}

/// The last week.
proof fn lemma_last_week(u: Seq<char>, r: Seq<char>)
    requires
        is_week_word(u),
        config::weekday_named(r) is Some || config::unit_weekday(r) is None,
    ensures
        config::week_phrase("上"@ + u + r) == config::in_week(Some(-1int), config::weekday_named(r)),
{
    lemma_letters();
    lemma_unit(u, r);
    let p = "上"@;
    let s = p + u + r;
    assert(s =~= p + (u + r));
    lemma_prefix(p, u + r);
    lemma_prefix(p + u, r);
    assert(s[0] == p[0]);
    assert(s[1] == u[0]);
    lemma_no_prefix("下下周"@, s, 0);
    lemma_no_prefix("下周"@, s, 0);
    lemma_no_prefix("下下"@, s, 0);
    lemma_no_prefix("下"@, s, 0);
    if u == "周"@ {
        assert(p + u =~= "上周"@);
    } else {
        lemma_no_prefix("上周"@, s, 1);
        lemma_no_prefix("本周"@, s, 0);
        lemma_no_prefix("这周"@, s, 0);
    }
}

/// This week.
proof fn lemma_this_week(u: Seq<char>, r: Seq<char>)
    requires
        is_week_word(u),
        config::weekday_named(r) is Some || config::unit_weekday(r) is None,
    ensures
        config::week_phrase("本"@ + u + r) == config::in_week(Some(0int), config::weekday_named(r)),
{
    lemma_letters();
    lemma_unit(u, r);
    let p = "本"@;
    let s = p + u + r;
    assert(s =~= p + (u + r));
    lemma_prefix(p, u + r);
    lemma_prefix(p + u, r);
    assert(s[0] == p[0]);
    assert(s[1] == u[0]);
    lemma_no_prefix("下下周"@, s, 0);
    lemma_no_prefix("下周"@, s, 0);
    lemma_no_prefix("上周"@, s, 0);
    lemma_no_prefix("下下"@, s, 0);
    lemma_no_prefix("下"@, s, 0);
    lemma_no_prefix("上"@, s, 0);
    if u == "周"@ {
        assert(p + u =~= "本周"@);
    } else {
        lemma_no_prefix("本周"@, s, 1);
        lemma_no_prefix("这周"@, s, 0);
    }
}

/// This week, in other words.
proof fn lemma_these_days(u: Seq<char>, r: Seq<char>)
    requires
        u == "周"@,
        config::weekday_named(r) is Some || config::unit_weekday(r) is None,
    ensures
        config::week_phrase("这"@ + u + r) == config::in_week(Some(0int), config::weekday_named(r)),
{
    lemma_letters();
    lemma_unit(u, r);
    let p = "这"@;
    let s = p + u + r;
    assert(s =~= p + (u + r));
    lemma_prefix(p, u + r);
    lemma_prefix(p + u, r);
    assert(s[0] == p[0]);
    assert(s[1] == u[0]);
    lemma_no_prefix("下下周"@, s, 0);
    lemma_no_prefix("下周"@, s, 0);
    lemma_no_prefix("上周"@, s, 0);
    lemma_no_prefix("本周"@, s, 0);
    assert(p + u =~= "这周"@);
}

/// The phrase with what follows the word for the week, which is no such phrase itself.
proof fn lemma_phrase(p: Seq<char>, u: Seq<char>, r: Seq<char>, weeks: Option<int>)
    requires
        is_week_word(u),
        is_week_before(p, u, weeks),
        config::weekday_named(r) is Some || config::unit_weekday(r) is None,
    ensures
        config::week_phrase(p + u + r) == config::in_week(weeks, config::weekday_named(r)),
{
    if p.len() == 0 {
        assert(p + u + r =~= u + r);
        lemma_no_week(u, r);
    } else if p == "下下"@ && weeks == Some(2int) {
        lemma_week_after_next(u, r);
    } else if p == "下"@ && weeks == Some(1int) {
        lemma_next_week(u, r);
    } else if p == "上"@ && weeks == Some(-1int) {
        lemma_last_week(u, r);
    } else if p == "本"@ && weeks == Some(0int) {
        lemma_this_week(u, r);
    } else {
        lemma_these_days(u, r);
    }
    lemma_letters();
}

/// The letters of a phrase: none is a mark, and none belongs to another kind of day.
pub(crate) proof fn lemma_phrase_letters(p: Seq<char>, u: Seq<char>, x: Seq<char>, weeks: Option<int>, w: int)
    requires
        is_week_word(u),
        is_week_before(p, u, weeks),
        is_weekday_word(w, x),
    ensures
        (p + u + x).len() == p.len() + u.len() + 1,
        (p + u + x).last() == x[0],
        (p + u + x)[0] != '今' && (p + u + x)[0] != '当' && (p + u + x)[0] != '明' && (p + u + x)[0]
            != '后' && (p + u + x)[0] != '大',
        forall|i: int|
            0 <= i < (p + u + x).len() ==> !text::is_white(#[trigger] (p + u + x)[i]) && (p + u
                + x)[i] != '，' && (p + u + x)[i] != '。' && (p + u + x)[i] != '月' && (p + u + x)[i]
                != '-' && (p + u + x)[i] != '/',
{
    lemma_letters();
    lemma_word(w, x);
    let s = p + u + x;
    assert forall|i: int| 0 <= i < s.len() implies !text::is_white(#[trigger] s[i]) && s[i] != '，'
        && s[i] != '。' && s[i] != '月' && s[i] != '-' && s[i] != '/' by {
        if i < p.len() {
            assert(s[i] == p[i]);
            assert(i == 0 || i == 1);
        } else if i < p.len() + u.len() {
            assert(s[i] == u[i - p.len()]);
            assert(i - p.len() == 0 || i - p.len() == 1);
        } else {
            assert(s[i] == x[0]);
        }
    }
    if p.len() > 0 {
        assert(s[0] == p[0]);
    } else {
        assert(s[0] == u[0]);
    }
}

proof fn lemma_unnamed(n: Seq<char>)
    requires
        n.len() > 0,
        n[0] != '今' && n[0] != '当' && n[0] != '明' && n[0] != '后' && n[0] != '大',
    ensures
        config::named_day(n) is None,
{
    reveal_strlit("今天");
    reveal_strlit("今日");
    reveal_strlit("当天");
    reveal_strlit("明天");
    reveal_strlit("明日");
    reveal_strlit("后天");
    reveal_strlit("大后天");
    assert("今天"@[0] == '今' && "今日"@[0] == '今' && "当天"@[0] == '当' && "明天"@[0] == '明'
        && "明日"@[0] == '明' && "后天"@[0] == '后' && "大后天"@[0] == '大');
}

/// A weekday of a week that is named lies in that week, which begins on Monday; one
/// without is the first such day from today on.
pub proof fn law_weekdays_mean_their_day(
    t: Date,
    p: Seq<char>,
    u: Seq<char>,
    x: Seq<char>,
    weeks: Option<int>,
    w: int,
)
    requires
        t.wf(),
        is_week_word(u),
        is_week_before(p, u, weeks),
        is_weekday_word(w, x),
    ensures
        config::spoken(t, p + u + x) == date::existing(weekday_from(t, weeks, w)),
{
    let s = p + u + x;
    lemma_word(w, x);
    lemma_phrase_letters(p, u, x, weeks, w);
    lemma_phrase(p, u, x, weeks);
    lemma_unnamed(s);
    config::lemma_tidy(s);
    assert(!s.contains('月'));
    config::lemma_not_found(s, '月', 0);
    reveal_strlit("上午");
    reveal_strlit("下午");
    reveal_strlit("晚上");
    assert("上午"@[1] == '午' && "下午"@[1] == '午' && "晚上"@[1] == '上');
    lemma_letters();
    assert(s.skip(s.len() - 2)[1] == x[0]);
    assert(config::before_part(s) is None);
    assert(t.weekday() == (t.number() - 1) % 7);
}

proof fn lemma_one_weekday(t: Date, x: Seq<char>, near: Seq<char>, next: Seq<char>, w: int)
    requires
        t.wf(),
        is_weekday_word(w, x),
        near.len() == 2 && near[0] == '周' && near[1] == x[0],
        next.len() == 3 && next[0] == '下' && next[1] == '周' && next[2] == x[0],
    ensures
        config::spoken(t, near) == date::existing(weekday_from(t, None, w)),
        config::spoken(t, next) == date::existing(weekday_from(t, Some(1int), w)),
{
    lemma_letters();
    lemma_word(w, x);
    let none = Seq::<char>::empty();
    law_weekdays_mean_their_day(t, none, "周"@, x, None, w);
    assert(none + "周"@ + x =~= near);
    law_weekdays_mean_their_day(t, "下"@, "周"@, x, Some(1int), w);
    assert("下"@ + "周"@ + x =~= next);
}

/// The seven names are the seven days from Monday to Sunday: each the first such day from
/// today on, and with the word for the next week that day of the week after this one.
pub proof fn law_the_seven_days_have_their_names(t: Date)
    requires
        t.wf(),
    ensures
        config::spoken(t, "周一"@) == date::existing(weekday_from(t, None, 0)),
        config::spoken(t, "下周一"@) == date::existing(weekday_from(t, Some(1int), 0)),
        config::spoken(t, "周二"@) == date::existing(weekday_from(t, None, 1)),
        config::spoken(t, "下周二"@) == date::existing(weekday_from(t, Some(1int), 1)),
        config::spoken(t, "周三"@) == date::existing(weekday_from(t, None, 2)),
        config::spoken(t, "下周三"@) == date::existing(weekday_from(t, Some(1int), 2)),
        config::spoken(t, "周四"@) == date::existing(weekday_from(t, None, 3)),
        config::spoken(t, "下周四"@) == date::existing(weekday_from(t, Some(1int), 3)),
        config::spoken(t, "周五"@) == date::existing(weekday_from(t, None, 4)),
        config::spoken(t, "下周五"@) == date::existing(weekday_from(t, Some(1int), 4)),
        config::spoken(t, "周六"@) == date::existing(weekday_from(t, None, 5)),
        config::spoken(t, "下周六"@) == date::existing(weekday_from(t, Some(1int), 5)),
        config::spoken(t, "周日"@) == date::existing(weekday_from(t, None, 6)),
        config::spoken(t, "下周日"@) == date::existing(weekday_from(t, Some(1int), 6)),
{
    reveal_strlit("一");
    reveal_strlit("周一");
    reveal_strlit("下周一");
    reveal_strlit("二");
    reveal_strlit("周二");
    reveal_strlit("下周二");
    reveal_strlit("三");
    reveal_strlit("周三");
    reveal_strlit("下周三");
    reveal_strlit("四");
    reveal_strlit("周四");
    reveal_strlit("下周四");
    reveal_strlit("五");
    reveal_strlit("周五");
    reveal_strlit("下周五");
    reveal_strlit("六");
    reveal_strlit("周六");
    reveal_strlit("下周六");
    reveal_strlit("日");
    reveal_strlit("周日");
    reveal_strlit("下周日");
    lemma_one_weekday(t, "一"@, "周一"@, "下周一"@, 0);
    lemma_one_weekday(t, "二"@, "周二"@, "下周二"@, 1);
    lemma_one_weekday(t, "三"@, "周三"@, "下周三"@, 2);
    lemma_one_weekday(t, "四"@, "周四"@, "下周四"@, 3);
    lemma_one_weekday(t, "五"@, "周五"@, "下周五"@, 4);
    lemma_one_weekday(t, "六"@, "周六"@, "下周六"@, 5);
    lemma_one_weekday(t, "日"@, "周日"@, "下周日"@, 6);
}

/// The parts of the day that may follow a day.
pub open spec fn is_part_word(part: Seq<char>) -> bool {
    part == "上午"@ || part == "下午"@ || part == "晚上"@
}

proof fn lemma_part_letters(part: Seq<char>)
    requires
        is_part_word(part),
    ensures
        part.len() == 2,
        forall|i: int|
            0 <= i < 2 ==> (#[trigger] part[i]) == '上' || part[i] == '下' || part[i] == '午'
                || part[i] == '晚',
{
    reveal_strlit("上午");
    reveal_strlit("下午");
    reveal_strlit("晚上");
    assert("上午"@[0] == '上' && "下午"@[0] == '下' && "晚上"@[0] == '晚');
    assert("上午"@[1] == '午' && "下午"@[1] == '午' && "晚上"@[1] == '上');
}

/// A day with a part of it after it is that day.
proof fn lemma_part_of_day(t: Date, n: Seq<char>, part: Seq<char>)
    requires
        is_part_word(part),
        forall|i: int|
            0 <= i < n.len() ==> !text::is_white(#[trigger] n[i]) && n[i] != '，' && n[i] != '。'
                && n[i] != '月',
        n.len() >= 2,
        config::named_day(n + part) is None,
        config::week_phrase(n + part) is None,
    ensures
        config::spoken(t, n + part) == config::spoken_day(t, n),
{
    lemma_part_letters(part);
    let s = n + part;
    assert forall|i: int| 0 <= i < s.len() implies !text::is_white(#[trigger] s[i]) && s[i] != '，'
        && s[i] != '。' && s[i] != '月' by {
        if i < n.len() {
            assert(s[i] == n[i]);
        } else {
            assert(s[i] == part[i - n.len()]);
        }
    }
    config::lemma_tidy(s);
    assert(!s.contains('月'));
    config::lemma_not_found(s, '月', 0);
    assert(s.skip(s.len() - 2) =~= part);
    assert(s.take(s.len() - 2) =~= n);
}

/// The morning, the afternoon or the evening of a weekday is of that day.
pub proof fn law_a_part_of_a_weekday_is_of_that_day(
    t: Date,
    p: Seq<char>,
    u: Seq<char>,
    x: Seq<char>,
    weeks: Option<int>,
    w: int,
    part: Seq<char>,
)
    requires
        t.wf(),
        is_week_word(u),
        is_week_before(p, u, weeks),
        is_weekday_word(w, x),
        is_part_word(part),
    ensures
        config::spoken(t, p + u + x + part) == date::existing(weekday_from(t, weeks, w)),
{
    let n = p + u + x;
    let r = x + part;
    lemma_letters();
    lemma_word(w, x);
    lemma_phrase_letters(p, u, x, weeks, w);
    law_weekdays_mean_their_day(t, p, u, x, weeks, w);
    lemma_part_letters(part);
    assert(r.len() == 3 && r[0] == x[0]);
    assert(config::weekday_named(r) is None) by {
        lemma_short_names();
    }
    assert(config::unit_weekday(r) is None) by {
        lemma_no_prefix("星期"@, r, 0);
        lemma_no_prefix("礼拜"@, r, 0);
        lemma_no_prefix("周"@, r, 0);
    }
    lemma_phrase(p, u, r, weeks);
    assert(p + u + r =~= n + part);
    assert((n + part)[0] == n[0]);
    lemma_unnamed(n + part);
    lemma_part_of_day(t, n, part);
    lemma_unnamed(n);
    config::lemma_tidy(n);
    assert(config::before_part(n) is None) by {
        reveal_strlit("上午");
        reveal_strlit("下午");
        reveal_strlit("晚上");
        assert("上午"@[1] == '午' && "下午"@[1] == '午' && "晚上"@[1] == '上');
        assert(n.skip(n.len() - 2)[1] == x[0]);
    }
}

proof fn lemma_short_names()
    ensures
        forall|r: Seq<char>| r.len() > 1 ==> #[trigger] config::weekday_named(r) is None,
{
    reveal_strlit("一");
    reveal_strlit("二");
    reveal_strlit("三");
    reveal_strlit("四");
    reveal_strlit("五");
    reveal_strlit("六");
    reveal_strlit("日");
    reveal_strlit("天");
    reveal_strlit("1");
    reveal_strlit("2");
    reveal_strlit("3");
    reveal_strlit("4");
    reveal_strlit("5");
    reveal_strlit("6");
    reveal_strlit("7");
}

/// The days that have a name of their own.
pub open spec fn is_day_name(k: int, n: Seq<char>) -> bool {
    ||| k == 0 && (n == "今天"@ || n == "今日"@ || n == "当天"@)
    ||| k == 1 && (n == "明天"@ || n == "明日"@)
    ||| k == 2 && n == "后天"@
    ||| k == 3 && n == "大后天"@
}

/// Today, tomorrow and the two days after it are counted from today, also where a part
/// of the day follows.
pub proof fn law_days_with_a_name(t: Date, k: int, n: Seq<char>, part: Seq<char>)
    requires
        t.wf(),
        is_day_name(k, n),
        is_part_word(part),
    ensures
        config::resolved(t, n) == date::existing(t.number() + k),
        config::spoken(t, n) == date::existing(t.number() + k),
        config::spoken(t, n + part) == date::existing(t.number() + k),
{
    lemma_letters();
    lemma_part_letters(part);
    reveal_strlit("今天");
    reveal_strlit("今日");
    reveal_strlit("当天");
    reveal_strlit("明天");
    reveal_strlit("明日");
    reveal_strlit("后天");
    reveal_strlit("大后天");
    assert("今天"@[0] == '今' && "今日"@[0] == '今' && "当天"@[0] == '当' && "明天"@[0] == '明'
        && "明日"@[0] == '明' && "后天"@[0] == '后' && "大后天"@[0] == '大' && "大后天"@[1] == '后');
    assert("今天"@[1] == '天' && "今日"@[1] == '日' && "当天"@[1] == '天' && "明天"@[1] == '天'
        && "明日"@[1] == '日' && "后天"@[1] == '天' && "大后天"@[2] == '天');
    config::lemma_tidy(n);
    let s = n + part;
    assert(s[0] == n[0]);
    assert(s.len() > 3);
    assert(config::named_day(n) == Some(k));
    assert(config::before_part(n) is None) by {
        reveal_strlit("上午");
        reveal_strlit("下午");
        reveal_strlit("晚上");
        assert("上午"@[1] == '午' && "下午"@[1] == '午' && "晚上"@[1] == '上');
        assert(n.skip(n.len() - 2)[1] == n.last());
    }
    lemma_no_prefix("下下周"@, s, 0);
    lemma_no_prefix("下周"@, s, 0);
    lemma_no_prefix("上周"@, s, 0);
    lemma_no_prefix("本周"@, s, 0);
    lemma_no_prefix("这周"@, s, 0);
    lemma_no_prefix("下下"@, s, 0);
    lemma_no_prefix("下"@, s, 0);
    lemma_no_prefix("上"@, s, 0);
    lemma_no_prefix("本"@, s, 0);
    lemma_no_prefix("星期"@, s, 0);
    lemma_no_prefix("礼拜"@, s, 0);
    lemma_no_prefix("周"@, s, 0);
    lemma_part_of_day(t, n, part);
    if date::existing(t.number() + k) is None {
        lemma_no_prefix("下下周"@, n, 0);
        lemma_no_prefix("下周"@, n, 0);
        lemma_no_prefix("上周"@, n, 0);
        lemma_no_prefix("本周"@, n, 0);
        lemma_no_prefix("这周"@, n, 0);
    }
}

/// Seats are asked for with zero for today and one for tomorrow; a later day is refused.
pub proof fn law_seats_go_by_today_and_tomorrow(t: Date, k: int, n: Seq<char>)
    requires
        t.wf(),
        is_day_name(k, n),
        date::existing(t.number() + k) is Some,
    ensures
        k == 0 ==> config::choice(t, n) == Ok::<u8, Seq<char>>(0),
        k == 1 ==> config::choice(t, n) == Ok::<u8, Seq<char>>(1),
        k > 1 ==> config::choice(t, n) == Err::<u8, Seq<char>>(
            "图书馆座位只支持今天(0)或明天(1)，更远的日期请改天再来查。"@,
        ),
{
    law_days_with_a_name(t, k, n, "上午"@);
}

/// A month and a day, written in figures, with the word for the day and perhaps a part of
/// it, or without.
pub open spec fn month_and_day(m: u32, d: u32, tail: Seq<char>) -> Seq<char> {
    text::decimal(m as nat) + "月"@ + text::decimal(d as nat) + tail
}

/// What may follow the number of the day.
pub open spec fn is_day_tail(tail: Seq<char>) -> bool {
    tail.len() == 0 || tail == "日"@ || tail == "日上午"@ || tail == "日下午"@ || tail == "日晚上"@
}

proof fn lemma_tail(tail: Seq<char>)
    requires
        is_day_tail(tail),
    ensures
        tail.len() == 0 || tail.len() == 1 || tail.len() == 3,
        tail.len() > 0 ==> tail[0] == '日',
        forall|i: int|
            0 <= i < tail.len() ==> (#[trigger] tail[i]) == '日' || tail[i] == '上' || tail[i]
                == '下' || tail[i] == '午' || tail[i] == '晚',
        "日"@.len() == 1 && "日"@[0] == '日',
{
    reveal_strlit("日");
    reveal_strlit("日上午");
    reveal_strlit("日下午");
    reveal_strlit("日晚上");
    assert("日上午"@[0] == '日' && "日上午"@[1] == '上' && "日上午"@[2] == '午');
    assert("日下午"@[0] == '日' && "日下午"@[1] == '下' && "日下午"@[2] == '午');
    assert("日晚上"@[0] == '日' && "日晚上"@[1] == '晚' && "日晚上"@[2] == '上');
}

proof fn lemma_month(t: Date, m: u32, d: u32, tail: Seq<char>)
    requires
        is_day_tail(tail),
    ensures
        config::tidied(month_and_day(m, d, tail)) == month_and_day(m, d, tail),
        config::spoken_day(t, month_and_day(m, d, tail)) == config::coming_day(
            t,
            m as int,
            d as int,
        ),
{
    reveal_strlit("月");
    let a = text::decimal(m as nat);
    let b = text::decimal(d as nat);
    let s = month_and_day(m, d, tail);
    let k = a.len() as int;
    config::laws::lemma_read_decimal(m);
    config::laws::lemma_read_decimal(d);
    config::lemma_decimal_digits(m as nat);
    config::lemma_decimal_digits(d as nat);
    lemma_tail(tail);
    assert(s.len() == k + 1 + b.len() + tail.len());
    assert(s[k] == '月');
    assert forall|i: int| 0 <= i < s.len() implies !text::is_white(#[trigger] s[i]) && s[i] != '，'
        && s[i] != '。' by {
        if i < k {
            assert(s[i] == a[i]);
        } else if k < i < k + 1 + b.len() {
            assert(s[i] == b[i - k - 1]);
        } else if i > k {
            assert(s[i] == tail[i - k - 1 - b.len()]);
        }
    }
    config::lemma_tidy(s);
    assert(s[0] == a[0]);
    config::lemma_no_name(s);
    assert forall|j: int| 0 <= j < k implies s[j] != '月' by {
        assert(s[j] == a[j]);
    }
    config::lemma_find_first(s, '月', 0, k);
    assert(s.take(k) =~= a);
    let rest = s.skip(k + 1);
    assert(rest =~= b + tail);
    assert forall|j: int| 0 <= j < b.len() implies rest[j] != '日' by {
        assert(rest[j] == b[j]);
    }
    if tail.len() > 0 {
        assert(rest[b.len() as int] == '日');
        config::lemma_find_first(rest, '日', 0, b.len() as int);
    } else {
        assert(rest =~= b);
        assert(!rest.contains('日'));
        config::lemma_not_found(rest, '日', 0);
    }
    assert(rest.take(b.len() as int) =~= b);
}

/// A month and a day mean that day of this year, or of the next one where it has passed
/// and the next one has it; where neither year has such a day, they mean none.
pub proof fn law_a_month_and_a_day_mean_the_coming_one(
    t: Date,
    m: u32,
    d: u32,
    tail: Seq<char>,
)
    requires
        t.wf(),
        is_day_tail(tail),
    ensures
        ({
            let r = config::spoken(t, month_and_day(m, d, tail));
            let y = t.year as int;
            let this = date::valid_ymd(y, m as int, d as int);
            let next = date::valid_ymd(y + 1, m as int, d as int);
            let n = date::day_number(y, m as int, d as int);
            let o = date::day_number(y + 1, m as int, d as int);
            &&& this && n >= t.number() ==> r == Some(n)
            &&& (!this || n < t.number()) && next && o >= t.number() ==> r == Some(o)
            &&& this && n < t.number() && !next ==> r == Some(n)
            &&& !this && !next ==> r is None
            &&& r is Some ==> (this && r == Some(n)) || (next && r == Some(o))
        }),
{
    let s = month_and_day(m, d, tail);
    lemma_tail(tail);
    lemma_month(t, m, d, tail);
    lemma_month(t, m, d, "日"@);
    if config::before_part(s) is Some {
        let b = text::decimal(d as nat);
        config::lemma_decimal_digits(d as nat);
        reveal_strlit("上午");
        reveal_strlit("下午");
        reveal_strlit("晚上");
        assert("上午"@[1] == '午' && "下午"@[1] == '午' && "晚上"@[1] == '上');
        assert(s.skip(s.len() - 2)[1] == s.last());
        if tail.len() == 0 {
            assert(s.last() == b.last());
            assert(text::is_digit(b[b.len() - 1]));
        } else {
            assert(s.last() == tail.last());
        }
        assert(tail.len() == 3);
        assert(s.take(s.len() - 2) =~= month_and_day(m, d, "日"@));
    }
}

} // verus!
