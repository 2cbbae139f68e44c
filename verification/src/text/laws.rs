//! What holds of texts.

use crate::config;
use crate::text;
use vstd::prelude::*;

verus! {

/// White space is what stands between words: the blank, the tabs and the ends of lines,
/// and the wide blank. Visible ASCII and ideographs are none.
pub proof fn law_white_space_is_blank(c: char)
    ensures
        c == ' ' || c == '\t' || c == '\n' || c == '\r' || c == '\u{3000}' || c == '\u{a0}'
            ==> text::is_white(c),
        '!' <= c <= '~' ==> !text::is_white(c),
        '\u{4e00}' <= c <= '\u{9fff}' ==> !text::is_white(c),
{
}

/// What is trimmed off is white space at the two ends, and all of it: what is left begins
/// and ends with something else, or is empty where all was white.
pub proof fn law_trimming_takes_the_ends(s: Seq<char>) -> (r: (int, int))
    ensures
        0 <= r.0 <= r.1 <= s.len(),
        text::trimmed(s) == s.subrange(r.0, r.1),
        forall|i: int| 0 <= i < r.0 || r.1 <= i < s.len() ==> text::is_white(#[trigger] s[i]),
        r.0 < r.1 ==> !text::is_white(s[r.0]) && !text::is_white(s[r.1 - 1]),
{
    lemma_skip(s, 0);
    let i = text::skip_white(s, 0);
    lemma_back(s, i, s.len() as int);
    let j = text::back_white(s, i, s.len() as int);
    if i < j {
        assert(!text::is_white(s[i]));
    }
    (i, j)
}

proof fn lemma_skip(s: Seq<char>, i: int)
    requires
        0 <= i <= s.len(),
    ensures
        i <= text::skip_white(s, i) <= s.len(),
        forall|k: int| i <= k < text::skip_white(s, i) ==> text::is_white(#[trigger] s[k]),
        text::skip_white(s, i) < s.len() ==> !text::is_white(s[text::skip_white(s, i)]),
    decreases s.len() - i,
{
    if i < s.len() && text::is_white(s[i]) {
        lemma_skip(s, i + 1);
    }
}

proof fn lemma_back(s: Seq<char>, i: int, j: int)
    requires
        0 <= i <= j <= s.len(),
    ensures
        i <= text::back_white(s, i, j) <= j,
        forall|k: int| text::back_white(s, i, j) <= k < j ==> text::is_white(#[trigger] s[k]),
        text::back_white(s, i, j) > i ==> !text::is_white(s[text::back_white(s, i, j) - 1]),
    decreases j - i,
{
    if j > i && text::is_white(s[j - 1]) {
        lemma_back(s, i, j - 1);
    }
}

/// A text of which neither end is white is its own trimming.
pub proof fn law_what_is_trim_stays(s: Seq<char>)
    requires
        s.len() > 0,
        !text::is_white(s[0]),
        !text::is_white(s.last()),
    ensures
        text::trimmed(s) == s,
{
    let (i, j) = law_trimming_takes_the_ends(s);
    if i > 0 {
        assert(text::is_white(s[0]));
    }
    if j < s.len() {
        assert(text::is_white(s[s.len() - 1]));
    }
    assert(s.subrange(0, s.len() as int) =~= s);
}

/// What is left out is every one of the characters to drop, and nothing else, wherever
/// they stand.
pub proof fn law_only_what_is_to_go_goes(a: Seq<char>, c: char, drop: Seq<char>)
    ensures
        drop.contains(c) ==> text::without(a.push(c), drop) == text::without(a, drop),
        !drop.contains(c) ==> text::without(a.push(c), drop) == text::without(a, drop).push(c),
        text::without(Seq::empty(), drop).len() == 0,
{
    assert(a.push(c).drop_last() =~= a);
}

/// A text stands in another where that is made of something, the text, and something.
pub proof fn law_a_text_stands_where_it_is_found(s: Seq<char>, p: Seq<char>, a: Seq<char>, b: Seq<char>)
    ensures
        s == a + p + b ==> text::occurs(s, p),
        text::occurs(s, p) ==> exists|i: int|
            0 <= i <= s.len() - p.len() && #[trigger] s.subrange(i, i + p.len()) == p,
{
    if s == a + p + b {
        assert(s.subrange(a.len() as int, (a.len() + p.len()) as int) =~= p);
        assert(text::occurs_at(s, p, a.len() as int));
    }
    if text::occurs(s, p) {
        let i = choose|i: int| text::occurs_at(s, p, i);
        assert(s.subrange(i, i + p.len()) == p);
    }
}

/// Texts are joined in order, with the separator between two of them.
pub proof fn law_texts_are_joined_in_order(parts: Seq<Seq<char>>, x: Seq<char>, sep: Seq<char>)
    ensures
        text::joined(Seq::empty().push(x), sep) == x,
        parts.len() > 0 ==> text::joined(parts.push(x), sep) == text::joined(parts, sep) + sep + x,
        text::joined(Seq::empty(), sep).len() == 0,
{
    assert(parts.push(x).drop_last() =~= parts);
}

/// A number is written in digits, without leading zeros, and means itself: each digit
/// counts ten times the ones after it.
pub proof fn law_a_number_is_written_in_digits(n: nat, s: Seq<char>, c: char)
    ensures
        text::dec_value(text::decimal(n)) == n,
        text::decimal(n).len() > 0,
        forall|i: int| 0 <= i < text::decimal(n).len() ==> '0' <= (#[trigger] text::decimal(n)[i]) <= '9',
        n > 0 ==> text::decimal(n)[0] != '0',
        '0' <= c <= '9' ==> text::dec_value(s.push(c)) == 10 * text::dec_value(s) + (c as int
            - '0' as int),
        text::dec_value(Seq::empty()) == 0,
{
    config::lemma_decimal_value(n);
    config::lemma_decimal_digits(n);
    lemma_first_digit(n);
    assert(s.push(c).drop_last() =~= s);
}

proof fn lemma_first_digit(n: nat)
    ensures
        text::decimal(n).len() > 0,
        n > 0 ==> text::decimal(n)[0] != '0',
    decreases n,
{
    if n >= 10 {
        lemma_first_digit(n / 10);
        assert(text::decimal(n)[0] == text::decimal(n / 10)[0]);
    }
}

/// A number that was written is read back, with its sign.
pub proof fn law_a_written_number_is_read_back(n: u32, k: i64)
    ensures
        text::read_u32(text::decimal(n as nat)) == Some(n),
        text::read_i64(text::signed_decimal(k as int)) == Some(k),
        text::read_u32(Seq::empty()) is None,
        text::read_i64(Seq::empty()) is None,
{
    config::laws::lemma_read_decimal(n);
    let a = if k < 0 {
        (-(k as int)) as nat
    } else {
        k as nat
    };
    law_a_number_is_written_in_digits(a, Seq::empty(), '0');
    config::lemma_decimal_digits(a);
    let s = text::signed_decimal(k as int);
    let d = text::decimal(a);
    if k < 0 {
        assert(s[0] == '-');
        assert(s.skip(1) =~= d);
    } else {
        assert(s[0] == d[0]);
        assert('0' <= d[0] <= '9');
        assert(text::unsigned_part(s) == s);
    }
    assert(text::all_digits(d));
}

/// What holds anything but digits is no number.
pub proof fn law_what_is_no_number_is_not_read(s: Seq<char>, i: int)
    requires
        0 <= i < s.len(),
        !('0' <= s[i] <= '9'),
        i > 0 || (s[i] != '+' && s[i] != '-'),
    ensures
        text::read_u32(s) is None,
        text::read_i64(s) is None,
{
    let d = text::unsigned_part(s);
    if s[0] == '+' {
        assert(d[i - 1] == s[i]);
    } else {
        assert(d[i] == s[i]);
    }
    if s[0] == '-' {
        assert(s.skip(1)[i - 1] == s[i]);
    }
}

/// A number below a hundred is written with two digits, the first of them zero where it
/// has but one.
pub proof fn law_two_digits_are_two(n: nat)
    requires
        n < 100,
    ensures
        text::two_digits(n).len() == 2,
        text::dec_value(text::two_digits(n)) == n,
        n < 10 ==> text::two_digits(n)[0] == '0',
{
    config::lemma_two_digits(n);
    reveal_with_fuel(text::dec_value, 3);
    reveal_with_fuel(text::decimal, 3);
}

} // verus!
