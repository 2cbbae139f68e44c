//! What holds of the reading of times and of settings, and of the estimate of tokens.

use crate::config;
use crate::date::Date;
use crate::json;
use crate::text;
use vstd::prelude::*;

verus! {

/// What is left out of two texts in a row is left out of each.
proof fn lemma_without_joined(a: Seq<char>, b: Seq<char>, drop: Seq<char>)
    ensures
        text::without(a + b, drop) == text::without(a, drop) + text::without(b, drop),
    decreases b.len(),
{
    if b.len() == 0 {
        assert(a + b =~= a);
        assert(text::without(a, drop) + text::without(b, drop) =~= text::without(a, drop));
    } else {
        assert((a + b).drop_last() =~= a + b.drop_last());
        lemma_without_joined(a, b.drop_last(), drop);
        assert(text::without(a + b, drop) =~= text::without(a, drop) + text::without(b, drop));
    }
}

proof fn lemma_without_all(s: Seq<char>, drop: Seq<char>)
    requires
        forall|i: int| 0 <= i < s.len() ==> drop.contains(#[trigger] s[i]),
    ensures
        text::without(s, drop) == Seq::<char>::empty(),
    decreases s.len(),
{
    if s.len() > 0 {
        assert(drop.contains(s[s.len() - 1]));
        lemma_without_all(s.drop_last(), drop);
    }
}

proof fn lemma_skip_white(s: Seq<char>, i: int)
    requires
        0 <= i <= s.len(),
    ensures
        i <= text::skip_white(s, i) <= s.len(),
        forall|k: int| i <= k < text::skip_white(s, i) ==> text::is_white(#[trigger] s[k]),
    decreases s.len() - i,
{
    if i < s.len() && text::is_white(s[i]) {
        lemma_skip_white(s, i + 1);
    }
}

proof fn lemma_back_white(s: Seq<char>, i: int, j: int)
    requires
        0 <= i <= j <= s.len(),
    ensures
        i <= text::back_white(s, i, j) <= j,
        forall|k: int| text::back_white(s, i, j) <= k < j ==> text::is_white(#[trigger] s[k]),
    decreases j - i,
{
    if j > i && text::is_white(s[j - 1]) {
        lemma_back_white(s, i, j - 1);
    }
}

/// `t` is `s` with spaces, commas and full stops strewn in, and no other white space.
pub open spec fn strewn(t: Seq<char>, s: Seq<char>) -> bool {
    &&& forall|i: int| 0 <= i < t.len() && text::is_white(#[trigger] t[i]) ==> t[i] == ' '
    &&& text::without(t, "，。 "@) == s
}

/// Of a text that holds no white space but spaces, spaces, commas and full stops are
/// left out wherever they stand.
proof fn lemma_strewn(t: Seq<char>, s: Seq<char>)
    requires
        strewn(t, s),
    ensures
        config::tidied(t) == s,
{
    let drop = "，。 "@;
    reveal_strlit("，。 ");
    assert(drop[2] == ' ');
    assert(drop.contains(' '));
    lemma_skip_white(t, 0);
    let i = text::skip_white(t, 0);
    lemma_back_white(t, i, t.len() as int);
    let j = text::back_white(t, i, t.len() as int);
    let a = t.take(i);
    let m = t.subrange(i, j);
    let b = t.skip(j);
    assert(t =~= a + m + b);
    assert forall|k: int| 0 <= k < a.len() implies drop.contains(#[trigger] a[k]) by {
        assert(text::is_white(t[k]));
    }
    assert forall|k: int| 0 <= k < b.len() implies drop.contains(#[trigger] b[k]) by {
        assert(text::is_white(t[j + k]));
    }
    lemma_without_all(a, drop);
    lemma_without_all(b, drop);
    lemma_without_joined(a + m, b, drop);
    lemma_without_joined(a, m, drop);
    assert(text::without(t, drop) =~= text::without(m, drop));
}

/// The hours and minutes that a time is read as, written `HH:MM`.
pub open spec fn colon_text(h: u32, m: u32) -> Seq<char> {
    text::two_digits(h as nat) + ":"@ + text::two_digits(m as nat)
}

proof fn lemma_colon(h: u32, m: u32)
    requires
        h < 24,
        m < 60,
    ensures
        config::colon_time(colon_text(h, m)) == Some((h, m)),
        text::find(colon_text(h, m), ':') < colon_text(h, m).len(),
        config::tidied(colon_text(h, m)) == colon_text(h, m),
{
    let a = text::two_digits(h as nat);
    let b = text::two_digits(m as nat);
    let s = colon_text(h, m);
    reveal_strlit(":");
    config::lemma_two_digits(h as nat);
    config::lemma_two_digits(m as nat);
    assert(s.len() == 5);
    assert(s[0] == a[0] && s[1] == a[1] && s[2] == ':' && s[3] == b[0] && s[4] == b[1]);
    assert(text::is_digit(a[0]) && text::is_digit(a[1]) && text::is_digit(b[0]) && text::is_digit(
        b[1],
    ));
    config::lemma_plain(s);
    config::lemma_find_first(s, ':', 0, 2);
    assert(s.take(2) =~= a);
    assert(s.skip(3) =~= b);
}

pub(crate) proof fn lemma_read_decimal(n: u32)
    ensures
        text::read_u32(text::decimal(n as nat)) == Some(n),
        text::all_digits(text::decimal(n as nat)),
        text::decimal(n as nat).len() > 0,
{
    config::lemma_decimal_digits(n as nat);
    config::lemma_decimal_value(n as nat);
    let s = text::decimal(n as nat);
    assert(text::is_digit(s[0]));
    assert(text::unsigned_part(s) == s);
}

proof fn lemma_digits_end(s: Seq<char>, i: int)
    requires
        0 <= i <= s.len(),
        text::all_digits(s),
    ensures
        config::digits_end(s, i) == s.len(),
    decreases s.len() - i,
{
    if i < s.len() {
        lemma_digits_end(s, i + 1);
    }
}

/// A character of a time that is told, but for the part of the day.
pub open spec fn is_time_char(c: char) -> bool {
    text::is_digit(c) || c == '点' || c == '半' || c == '分'
}

/// What may follow the hour.
pub open spec fn is_rest(s: Seq<char>) -> bool {
    forall|i: int|
        0 <= i < s.len() ==> text::is_digit(#[trigger] s[i]) || s[i] == '半' || s[i] == '分'
}

/// The parts of a day stand for nothing but themselves: what is left of `p` and `s`,
/// where `p` is made of their characters and `s` holds none of them.
proof fn lemma_core(p: Seq<char>, s: Seq<char>)
    requires
        forall|i: int| 0 <= i < p.len() ==> "上午下晚中"@.contains(#[trigger] p[i]),
        forall|i: int| 0 <= i < s.len() ==> is_time_char(#[trigger] s[i]),
    ensures
        text::without(p + s, "上午下晚中"@) == s,
{
    reveal_strlit("上午下晚中");
    let drop = "上午下晚中"@;
    assert(drop[0] == '上' && drop[1] == '午' && drop[2] == '下' && drop[3] == '晚' && drop[4]
        == '中');
    lemma_without_all(p, drop);
    assert forall|i: int| 0 <= i < s.len() implies !drop.contains(#[trigger] s[i]) by {
    }
    config::lemma_without_none(s, drop);
    lemma_without_joined(p, s, drop);
    assert(Seq::<char>::empty() + s =~= s);
}

/// A word of two characters stands in `p` and `s` only where it is `p`.
proof fn lemma_occurs(p: Seq<char>, s: Seq<char>, w: Seq<char>)
    requires
        p.len() == 0 || p.len() == 2,
        w.len() == 2,
        !is_time_char(w[0]),
        !is_time_char(w[1]),
        forall|i: int| 0 <= i < s.len() ==> is_time_char(#[trigger] s[i]),
    ensures
        text::occurs(p + s, w) == (p == w),
{
    let n = p + s;
    if p == w {
        assert(n.subrange(0, 2) =~= w);
        assert(text::occurs_at(n, w, 0));
    }
    if text::occurs(n, w) {
        let i = choose|i: int| text::occurs_at(n, w, i);
        assert(n.subrange(i, i + 2)[0] == n[i] && n.subrange(i, i + 2)[1] == n[i + 1]);
        if i + 1 >= p.len() {
            assert(n[i + 1] == s[i + 1 - p.len()]);
        }
        assert(i == 0 && p.len() == 2);
        assert(p =~= w);
    }
}

/// A part of the day, or none.
pub open spec fn is_part(p: Seq<char>) -> bool {
    p.len() == 0 || p == "上午"@ || p == "下午"@ || p == "晚上"@ || p == "中午"@
}

/// A time told as `H点`, with what follows.
pub open spec fn told(h: u32, rest: Seq<char>) -> Seq<char> {
    text::decimal(h as nat) + "点"@ + rest
}

proof fn lemma_told_chars(h: u32, rest: Seq<char>)
    requires
        is_rest(rest),
    ensures
        forall|i: int|
            0 <= i < told(h, rest).len() ==> is_time_char(#[trigger] told(h, rest)[i]),
        text::find(told(h, rest), '点') == text::decimal(h as nat).len(),
        told(h, rest).take(text::decimal(h as nat).len() as int) == text::decimal(h as nat),
        told(h, rest).skip(text::decimal(h as nat).len() as int + 1) == rest,
        told(h, rest).len() == text::decimal(h as nat).len() + 1 + rest.len(),
{
    let d = text::decimal(h as nat);
    let s = told(h, rest);
    let k = d.len() as int;
    reveal_strlit("点");
    lemma_read_decimal(h);
    assert(s[k] == '点');
    assert forall|i: int| 0 <= i < s.len() implies is_time_char(#[trigger] s[i]) by {
        if i < k {
            assert(s[i] == d[i]);
        } else if i > k {
            assert(s[i] == rest[i - k - 1]);
        }
    }
    assert forall|j: int| 0 <= j < k implies s[j] != '点' by {
        assert(s[j] == d[j]);
    }
    config::lemma_find_first(s, '点', 0, k);
    assert(s.take(k) =~= d);
    assert(s.skip(k + 1) =~= rest);
}

proof fn lemma_part(p: Seq<char>)
    requires
        is_part(p),
    ensures
        p.len() == 0 || p.len() == 2,
        forall|i: int| 0 <= i < p.len() ==> "上午下晚中"@.contains(#[trigger] p[i]),
        forall|i: int|
            0 <= i < p.len() ==> (#[trigger] p[i]) == '上' || p[i] == '午' || p[i] == '下' || p[i]
                == '晚' || p[i] == '中',
{
    reveal_strlit("上午");
    reveal_strlit("下午");
    reveal_strlit("晚上");
    reveal_strlit("上午下晚中");
    assert("上午"@[0] == '上' && "上午"@[1] == '午');
    assert("下午"@[0] == '下' && "下午"@[1] == '午');
    assert("晚上"@[0] == '晚' && "晚上"@[1] == '上');
    reveal_strlit("中午");
    assert("中午"@[0] == '中' && "中午"@[1] == '午');
    let all = "上午下晚中"@;
    assert(all[0] == '上' && all[1] == '午' && all[2] == '下' && all[3] == '晚' && all[4] == '中');
}

/// With a part of the day before it, or none, such a time is tidy and holds no colon.
proof fn lemma_told_tidy(p: Seq<char>, h: u32, rest: Seq<char>)
    requires
        is_part(p),
        is_rest(rest),
    ensures
        config::tidied(p + told(h, rest)) == p + told(h, rest),
        text::find(p + told(h, rest), ':') == (p + told(h, rest)).len(),
{
    let s = told(h, rest);
    let n = p + s;
    lemma_part(p);
    lemma_told_chars(h, rest);
    assert forall|i: int| 0 <= i < n.len() implies !text::is_white(#[trigger] n[i]) && n[i] != '，'
        && n[i] != '。' && n[i] != ':' by {
        if i >= p.len() {
            assert(n[i] == s[i - p.len()]);
        } else {
            assert(n[i] == p[i]);
        }
    }
    config::lemma_tidy(n);
    assert(!n.contains(':'));
    config::lemma_not_found(n, ':', 0);
}

/// The part of the day that stands there is found, and no other.
proof fn lemma_told_part(p: Seq<char>, h: u32, rest: Seq<char>)
    requires
        is_part(p),
        is_rest(rest),
    ensures
        text::occurs(p + told(h, rest), "上午"@) == (p == "上午"@),
        text::occurs(p + told(h, rest), "下午"@) == (p == "下午"@),
        text::occurs(p + told(h, rest), "晚上"@) == (p == "晚上"@),
        text::without(p + told(h, rest), "上午下晚中"@) == told(h, rest),
{
    let s = told(h, rest);
    lemma_part(p);
    lemma_told_chars(h, rest);
    reveal_strlit("上午");
    reveal_strlit("下午");
    reveal_strlit("晚上");
    assert("上午"@[0] == '上' && "上午"@[1] == '午');
    assert("下午"@[0] == '下' && "下午"@[1] == '午');
    assert("晚上"@[0] == '晚' && "晚上"@[1] == '上');
    lemma_occurs(p, s, "上午"@);
    lemma_occurs(p, s, "下午"@);
    lemma_occurs(p, s, "晚上"@);
    lemma_core(p, s);
}

/// What such a time comes to.
proof fn lemma_told(p: Seq<char>, h: u32, rest: Seq<char>, m: u32)
    requires
        is_part(p),
        h < 24,
        m < 60,
        is_rest(rest),
        config::minutes_of(rest) == Some(m),
    ensures
        config::clock_time(p + told(h, rest)) == (if (p == "下午"@ || p == "晚上"@) && h < 12 {
            Some(((h + 12) as u32, m))
        } else if p == "上午"@ && h == 12 {
            Some((0u32, m))
        } else {
            Some((h, m))
        }),
{
    lemma_told_tidy(p, h, rest);
    lemma_told_part(p, h, rest);
    lemma_told_chars(h, rest);
    lemma_read_decimal(h);
    reveal_strlit("上午");
    reveal_strlit("下午");
    reveal_strlit("晚上");
    assert("上午"@[0] == '上' && "下午"@[0] == '下' && "晚上"@[0] == '晚');
}

/// A time written as `HH:MM`, or told as `H点M`, is read back as it was written.
pub proof fn law_written_time_is_read_back(h: u32, m: u32)
    requires
        h < 24,
        m < 60,
    ensures
        config::clock_time(colon_text(h, m)) == Some((h, m)),
        config::clock_time(told(h, text::decimal(m as nat))) == Some((h, m)),
{
    lemma_colon(h, m);
    let rest = text::decimal(m as nat);
    lemma_read_decimal(m);
    lemma_digits_end(rest, 0);
    assert(rest.take(rest.len() as int) =~= rest);
    assert(text::is_digit(rest[0]));
    lemma_told(Seq::empty(), h, rest, m);
    reveal_strlit("下午");
    reveal_strlit("晚上");
    reveal_strlit("上午");
    assert(Seq::<char>::empty() + told(h, rest) =~= told(h, rest));
}

/// Spaces, commas and full stops that are strewn into a time or into a day, at its ends
/// or within, change nothing.
pub proof fn law_marks_change_nothing(t: Seq<char>, s: Seq<char>, today: Date)
    requires
        strewn(t, s),
        strewn(s, s),
    ensures
        config::clock_time(t) == config::clock_time(s),
        config::resolved(today, t) == config::resolved(today, s),
{
    lemma_strewn(t, s);
    lemma_strewn(s, s);
}

/// In the afternoon and in the evening the hours up to eleven are twelve later, and in
/// the morning and without a part of the day they are as they are told. Twelve is noon
/// in the afternoon, and midnight in the morning.
pub proof fn law_part_of_day_shifts_the_hour(h: u32)
    requires
        h < 12,
    ensures
        config::clock_time("下午"@ + (text::decimal(h as nat) + "点"@)) == Some(((h + 12) as u32, 0u32)),
        config::clock_time("晚上"@ + (text::decimal(h as nat) + "点"@)) == Some(((h + 12) as u32, 0u32)),
        config::clock_time("上午"@ + (text::decimal(h as nat) + "点"@)) == Some((h, 0u32)),
        config::clock_time(text::decimal(h as nat) + "点"@) == Some((h, 0u32)),
        config::clock_time("下午"@ + (text::decimal(12) + "点"@)) == Some((12u32, 0u32)),
        config::clock_time("上午"@ + (text::decimal(12) + "点"@)) == Some((0u32, 0u32)),
{
    reveal_strlit("下午");
    reveal_strlit("晚上");
    reveal_strlit("上午");
    assert("上午"@[0] == '上' && "下午"@[0] == '下' && "晚上"@[0] == '晚');
    let none = Seq::<char>::empty();
    let s = text::decimal(h as nat) + "点"@;
    assert(told(h, none) =~= s);
    assert(told(12, none) =~= text::decimal(12) + "点"@);
    assert(none + s =~= s);
    lemma_told("下午"@, h, none, 0);
    lemma_told("晚上"@, h, none, 0);
    lemma_told("上午"@, h, none, 0);
    lemma_told(none, h, none, 0);
    lemma_told("下午"@, 12, none, 0);
    lemma_told("上午"@, 12, none, 0);
}

proof fn lemma_wide_joined(a: Seq<char>, b: Seq<char>)
    ensures
        config::wide_chars(a + b) == config::wide_chars(a) + config::wide_chars(b),
    decreases b.len(),
{
    if b.len() == 0 {
        assert(a + b =~= a);
    } else {
        assert((a + b).drop_last() =~= a + b.drop_last());
        lemma_wide_joined(a, b.drop_last());
    }
}

/// The estimate of a joined text is the sum of the two estimates, or one less; so it is
/// no less than either.
pub proof fn law_estimates_add_up(a: Seq<char>, b: Seq<char>)
    ensures
        config::tokens(a) + config::tokens(b) - 1 <= config::tokens(a + b) <= config::tokens(a)
            + config::tokens(b),
        config::tokens(a) <= config::tokens(a + b),
        config::tokens(b) <= config::tokens(a + b),
{
    lemma_wide_joined(a, b);
    config::lemma_wide_bound(a);
    config::lemma_wide_bound(b);
}

proof fn lemma_wide_of_all(a: Seq<char>, b: Seq<char>)
    requires
        a.to_multiset() == b.to_multiset(),
    ensures
        a.len() == b.len(),
        config::wide_chars(a) == config::wide_chars(b),
    decreases a.len(),
{
    a.to_multiset_ensures();
    b.to_multiset_ensures();
    if a.len() > 0 {
        let c = a.last();
        assert(a.contains(c));
        assert(b.to_multiset().count(c) > 0);
        assert(b.contains(c));
        let i = choose|i: int| 0 <= i < b.len() && b[i] == c;
        assert(a.remove(a.len() - 1) =~= a.drop_last());
        lemma_wide_of_all(a.drop_last(), b.remove(i));
        assert(b =~= b.take(i) + (seq![c] + b.skip(i + 1)));
        assert(b.remove(i) =~= b.take(i) + b.skip(i + 1));
        lemma_wide_joined(b.take(i), seq![c] + b.skip(i + 1));
        lemma_wide_joined(seq![c], b.skip(i + 1));
        lemma_wide_joined(b.take(i), b.skip(i + 1));
        assert(seq![c].drop_last() =~= Seq::<char>::empty());
        reveal_with_fuel(config::wide_chars, 2);
    }
}

/// The order of the characters does not matter to the estimate.
pub proof fn law_order_does_not_matter(a: Seq<char>, b: Seq<char>)
    requires
        a.to_multiset() == b.to_multiset(),
    ensures
        config::tokens(a) == config::tokens(b),
{
    lemma_wide_of_all(a, b);
}

proof fn lemma_digits_before(a: Seq<char>, b: Seq<char>, i: int)
    requires
        0 <= i <= a.len(),
        text::all_digits(a),
        b.len() > 0 && !text::is_digit(b[0]),
    ensures
        config::digits_end(a + b, i) == a.len(),
    decreases a.len() - i,
{
    if i < a.len() {
        assert((a + b)[i] == a[i]);
        lemma_digits_before(a, b, i + 1);
    } else {
        assert((a + b)[i] == b[0]);
    }
}

/// What a time comes to with the part of the day before it.
pub open spec fn in_part(p: Seq<char>, h: u32, m: u32) -> (u32, u32) {
    if (p == "下午"@ || p == "晚上"@) && h < 12 {
        ((h + 12) as u32, m)
    } else if p == "上午"@ && h == 12 {
        (0, m)
    } else {
        (h, m)
    }
}

/// A time that is told with its minutes, with or without the word for them, or as half
/// past, is that time in its part of the day.
pub proof fn law_minutes_are_told_with_the_hour(p: Seq<char>, h: u32, m: u32)
    requires
        is_part(p),
        h < 24,
        m < 60,
    ensures
        config::clock_time(p + (text::decimal(h as nat) + "点"@ + text::decimal(m as nat))) == Some(
            in_part(p, h, m),
        ),
        config::clock_time(
            p + (text::decimal(h as nat) + "点"@ + (text::decimal(m as nat) + "分"@)),
        ) == Some(in_part(p, h, m)),
        config::clock_time(p + (text::decimal(h as nat) + "点"@ + "半"@)) == Some(
            in_part(p, h, 30),
        ),
        config::clock_time(p + (text::decimal(h as nat) + "点"@ + Seq::<char>::empty())) == Some(
            in_part(p, h, 0),
        ),
{
    let a = text::decimal(m as nat);
    lemma_read_decimal(m);
    lemma_digits_end(a, 0);
    assert(a.take(a.len() as int) =~= a);
    assert(text::is_digit(a[0]));
    lemma_told(p, h, a, m);
    reveal_strlit("分");
    reveal_strlit("半");
    assert("分"@[0] == '分' && "半"@[0] == '半');
    let b = a + "分"@;
    lemma_digits_before(a, "分"@, 0);
    assert(b.take(a.len() as int) =~= a);
    assert(b[0] == a[0]);
    assert(config::minutes_of(b) == Some(m));
    assert forall|i: int| 0 <= i < b.len() implies text::is_digit(#[trigger] b[i]) || b[i] == '半'
        || b[i] == '分' by {
        if i < a.len() {
            assert(b[i] == a[i]);
        }
    }
    lemma_told(p, h, b, m);
    lemma_told(p, h, "半"@, 30);
    lemma_told(p, h, Seq::empty(), 0);
}

/// Whatever a time is read from, it is one of the day.
pub proof fn law_a_time_is_one_of_the_day(s: Seq<char>)
    ensures
        config::clock_time(s) matches Some(t) ==> t.0 < 24 && t.1 < 60,
{
}

/// A time of figures with an hour or with minutes that no day has is refused.
pub proof fn law_no_such_time_is_refused(h: u32, m: u32)
    requires
        h < 100,
        m < 100,
        h >= 24 || m >= 60,
    ensures
        config::clock_time(colon_text(h, m)) is None,
        config::clock_time(told(h, text::decimal(m as nat))) is None,
{
    let a = text::two_digits(h as nat);
    let b = text::two_digits(m as nat);
    let s = colon_text(h, m);
    reveal_strlit(":");
    config::lemma_two_digits(h as nat);
    config::lemma_two_digits(m as nat);
    assert(s.len() == 5);
    assert(s[0] == a[0] && s[1] == a[1] && s[2] == ':' && s[3] == b[0] && s[4] == b[1]);
    config::lemma_plain(s);
    config::lemma_find_first(s, ':', 0, 2);
    assert(s.take(2) =~= a);
    assert(s.skip(3) =~= b);
    let rest = text::decimal(m as nat);
    let none = Seq::<char>::empty();
    lemma_read_decimal(m);
    lemma_digits_end(rest, 0);
    assert(rest.take(rest.len() as int) =~= rest);
    assert(text::is_digit(rest[0]));
    lemma_told_tidy(none, h, rest);
    lemma_told_part(none, h, rest);
    lemma_told_chars(h, rest);
    lemma_read_decimal(h);
    assert(none + told(h, rest) =~= told(h, rest));
    reveal_strlit("上午");
    reveal_strlit("下午");
    reveal_strlit("晚上");
}

/// The estimate counts one for each character from the ideographs on, one for four of
/// the others, and one more.
pub proof fn law_wide_characters_count_one_each(s: Seq<char>)
    ensures
        (forall|i: int| 0 <= i < s.len() ==> (#[trigger] s[i]) as u32 >= 0x2E80) ==> config::tokens(s)
            == s.len() + 1,
        (forall|i: int| 0 <= i < s.len() ==> 0x2E80 > (#[trigger] s[i]) as u32) ==> config::tokens(s)
            == s.len() / 4 + 1,
{
    if forall|i: int| 0 <= i < s.len() ==> (#[trigger] s[i]) as u32 >= 0x2E80 {
        lemma_all_wide(s);
    }
    if forall|i: int| 0 <= i < s.len() ==> 0x2E80 > (#[trigger] s[i]) as u32 {
        lemma_none_wide(s);
    }
}

proof fn lemma_all_wide(s: Seq<char>)
    requires
        forall|i: int| 0 <= i < s.len() ==> (#[trigger] s[i]) as u32 >= 0x2E80,
    ensures
        config::wide_chars(s) == s.len(),
    decreases s.len(),
{
    if s.len() > 0 {
        lemma_all_wide(s.drop_last());
        assert(s[s.len() - 1] as u32 >= 0x2E80);
    }
}

proof fn lemma_none_wide(s: Seq<char>)
    requires
        forall|i: int| 0 <= i < s.len() ==> 0x2E80 > (#[trigger] s[i]) as u32,
    ensures
        config::wide_chars(s) == 0,
    decreases s.len(),
{
    if s.len() > 0 {
        lemma_none_wide(s.drop_last());
        assert(0x2E80 > s[s.len() - 1] as u32);
    }
}

/// The line on the time tells the day, what day of the week it is, and the time.
pub proof fn law_the_time_is_told_with_its_weekday(m: config::Moment)
    ensures
        ({
            let w = m.date.weekday();
            let name = if w == 0 {
                "周一"@
            } else if w == 1 {
                "周二"@
            } else if w == 2 {
                "周三"@
            } else if w == 3 {
                "周四"@
            } else if w == 4 {
                "周五"@
            } else if w == 5 {
                "周六"@
            } else {
                "周日"@
            };
            config::moment_text(m) == m.date.text() + "（"@ + name + "）"@ + text::two_digits(
                m.hour as nat,
            ) + ":"@ + text::two_digits(m.minute as nat)
        }),
{
}

/// What the user has set is what counts, without the white space round it, in small
/// letters where it is a word. An address, a model or a figure that is left out has its
/// default.
pub proof fn law_settings_are_the_users(
    map: json::Tree,
    figures: config::Figures,
    cfg: config::Config,
    x: Seq<char>,
)
    requires
        config::configured(map, figures, cfg),
    ensures
        json::field(map, "apiKey"@) == Some(json::Tree::Str(x)) ==> cfg.api_key@ == text::trimmed(x),
        json::field(map, "apiKey"@) is None ==> cfg.api_key@.len() == 0,
        json::field(map, "thinking"@) == Some(json::Tree::Str(x)) ==> {
            let l = text::lowercase(text::trimmed(x));
            cfg.thinking <==> l == "on"@ || l == "true"@ || l == "1"@ || l == "开"@
        },
        json::field(map, "stream"@) == Some(json::Tree::Str(x)) ==> {
            let l = text::lowercase(text::trimmed(x));
            cfg.stream <==> !(l == "off"@ || l == "false"@ || l == "0"@ || l == "关"@)
        },
        json::field(map, "model"@) == Some(json::Tree::Str(x)) && text::trimmed(x).len() > 0
            && text::trimmed(x) != "deepseek-chat"@ && text::trimmed(x) != "deepseek-reasoner"@
            ==> cfg.model@ == text::trimmed(x),
        json::field(map, "model"@) is None ==> cfg.model@ == if cfg.thinking {
            "deepseek-reasoner"@
        } else {
            "deepseek-chat"@
        },
        json::field(map, "baseUrl"@) is None ==> cfg.base_url@ == "https://api.deepseek.com/v1"@,
        json::field(map, "baseUrl"@) == Some(json::Tree::Str(x)) && text::trimmed(x).len() > 0
            && text::trimmed(x).last() != '/' ==> cfg.base_url@ == text::trimmed(x),
        json::field(map, "baseUrl"@) == Some(json::Tree::Str(x)) && text::trimmed(x).len() > 0 ==> {
            &&& cfg.base_url@.is_prefix_of(text::trimmed(x))
            &&& cfg.base_url@.len() > 0 ==> cfg.base_url@.last() != '/'
            &&& forall|i: int|
                cfg.base_url@.len() <= i < text::trimmed(x).len() ==> (#[trigger] text::trimmed(
                    x,
                )[i]) == '/'
        },
        figures.steps matches Some(n) ==> (2 <= n <= 64 ==> cfg.max_steps == n),
        figures.steps is None ==> cfg.max_steps == 16,
        figures.context matches Some(n) ==> (4000 <= n <= usize::MAX ==> cfg.max_context == n),
        figures.context is None ==> cfg.max_context == 24000,
        cfg.price_in == figures.price_in,
        cfg.price_out == figures.price_out,
        cfg.budget_usd == figures.budget_usd,
{
    lemma_empty_setting();
    reveal_strlit("deepseek-chat");
    reveal_strlit("deepseek-reasoner");
    lemma_slashes_go(text::trimmed(x));
}

proof fn lemma_empty_setting()
    ensures
        text::trimmed(Seq::<char>::empty()).len() == 0,
{
}

proof fn lemma_slashes_go(s: Seq<char>)
    ensures
        config::no_slashes(s).is_prefix_of(s),
        config::no_slashes(s).len() > 0 ==> config::no_slashes(s).last() != '/',
        forall|i: int| config::no_slashes(s).len() <= i < s.len() ==> (#[trigger] s[i]) == '/',
    decreases s.len(),
{
    if s.len() > 0 && s.last() == '/' {
        lemma_slashes_go(s.drop_last());
        let k = config::no_slashes(s);
        assert(k =~= s.subrange(0, k.len() as int)) by {
            assert(k =~= s.drop_last().subrange(0, k.len() as int));
        }
        assert forall|i: int| k.len() <= i < s.len() implies (#[trigger] s[i]) == '/' by {
            if i < s.len() - 1 {
                assert(s.drop_last()[i] == s[i]);
            }
        }
    } else {
        assert(s =~= s.subrange(0, s.len() as int));
    }
}

/// The days of the week have their names.
pub proof fn law_weekdays_have_their_names()
    ensures
        config::weekday_text(config::Weekday::Mon) == "周一"@,
        config::weekday_text(config::Weekday::Tue) == "周二"@,
        config::weekday_text(config::Weekday::Wed) == "周三"@,
        config::weekday_text(config::Weekday::Thu) == "周四"@,
        config::weekday_text(config::Weekday::Fri) == "周五"@,
        config::weekday_text(config::Weekday::Sat) == "周六"@,
        config::weekday_text(config::Weekday::Sun) == "周日"@,
{
}

/// A time of figures may leave out the leading zero of its hour.
pub proof fn law_an_hour_needs_no_leading_zero(h: u32, m: u32)
    requires
        h < 24,
        m < 60,
    ensures
        config::clock_time(text::decimal(h as nat) + ":"@ + text::two_digits(m as nat)) == Some(
            (h, m),
        ),
{
    let a = text::decimal(h as nat);
    let b = text::two_digits(m as nat);
    let s = a + ":"@ + b;
    let k = a.len() as int;
    reveal_strlit(":");
    config::lemma_two_digits(m as nat);
    lemma_read_decimal(h);
    config::lemma_decimal_digits(h as nat);
    assert(s[k] == ':');
    assert forall|i: int| 0 <= i < s.len() implies text::is_digit(#[trigger] s[i]) || s[i] == '-'
        || s[i] == ':' by {
        if i < k {
            assert(s[i] == a[i]);
        } else if i > k {
            assert(s[i] == b[i - k - 1]);
            assert(text::is_digit(b[0]) && text::is_digit(b[1]));
        }
    }
    config::lemma_plain(s);
    assert forall|j: int| 0 <= j < k implies s[j] != ':' by {
        assert(s[j] == a[j]);
    }
    config::lemma_find_first(s, ':', 0, k);
    assert(s.take(k) =~= a);
    assert(s.skip(k + 1) =~= b);
}

/// Seats are for today, with zero, and for tomorrow, with one; any other day is refused,
/// and so is what is no day.
pub proof fn law_seats_are_for_two_days(t: Date, s: Seq<char>)
    ensures
        config::resolved(t, s) == Some(t.number()) ==> config::choice(t, s) == Ok::<u8, Seq<char>>(0),
        config::resolved(t, s) == Some(t.number() + 1) ==> config::choice(t, s) == Ok::<
            u8,
            Seq<char>,
        >(1),
        config::resolved(t, s) matches Some(n) ==> (n < t.number() || n > t.number() + 1
            ==> config::choice(t, s) == Err::<u8, Seq<char>>(
            "图书馆座位只支持今天(0)或明天(1)，更远的日期请改天再来查。"@,
        )),
        config::resolved(t, s) is None ==> config::choice(t, s) == Err::<u8, Seq<char>>(
            "无法理解日期「"@ + s + "」，请用 今天/明天 或 YYYY-MM-DD。"@,
        ),
{
}

} // verus!
