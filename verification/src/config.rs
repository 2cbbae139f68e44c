//! Settings, and the reading of dates and times as people write them: what the
//! model passes on ("tomorrow afternoon", "next Wednesday") is turned into calendar
//! days and clock times by the local clock, never by the model.

use crate::date;
use crate::date::{Date, Moment, Weekday};
use crate::json;
use crate::json::{Json, Num};
use crate::text;
use vstd::prelude::*;

pub mod days;
pub mod laws;

verus! {

/// What the settings page holds, read anew for every run.
#[derive(Debug)]
pub struct Config {
    pub api_key: String,
    pub base_url: String,
    pub model: String,
    /// Thinking mode: switches DeepSeek's chat model to its reasoner.
    pub thinking: bool,
    /// The estimated tokens that the history may take.
    pub max_context: usize,
    /// Streamed output.
    pub stream: bool,
    /// Prices in US dollars for a million tokens.
    pub price_in: Num,
    pub price_out: Num,
    /// The budget in US dollars at which conversations stop.
    pub budget_usd: Num,
    /// The steps that one task may take.
    pub max_steps: u32,
}

/// The settings that are written as decimal fractions, as the caller has read them:
/// of the first two the whole part, absent where the setting is no number.
#[derive(Debug)]
pub struct Figures {
    pub context: Option<u64>,
    pub steps: Option<u64>,
    pub price_in: Num,
    pub price_out: Num,
    pub budget_usd: Num,
}

/// A setting: its text without white space at the ends, empty where it is not set.
pub open spec fn setting_text(map: json::Tree, key: Seq<char>) -> Seq<char> {
    text::trimmed(json::text_at(map, key))
}

/// `s` without the slashes at its end.
pub open spec fn no_slashes(s: Seq<char>) -> Seq<char>
    decreases s.len(),
{
    if s.len() > 0 && s.last() == '/' {
        no_slashes(s.drop_last())
    } else {
        s
    }
}

pub open spec fn base_url_of(s: Seq<char>) -> Seq<char> {
    if s.len() == 0 {
        "https://api.deepseek.com/v1"@
    } else {
        no_slashes(s)
    }
}

pub open spec fn is_on(s: Seq<char>) -> bool {
    let l = text::lowercase(s);
    l == "on"@ || l == "true"@ || l == "1"@ || l == "开"@
}

pub open spec fn is_off(s: Seq<char>) -> bool {
    let l = text::lowercase(s);
    l == "off"@ || l == "false"@ || l == "0"@ || l == "关"@
}

/// The model that is asked: DeepSeek's chat model and its reasoner stand for each
/// other, as thinking mode says; any other model stays.
pub open spec fn model_of(s: Seq<char>, thinking: bool) -> Seq<char> {
    let m = if s.len() == 0 { "deepseek-chat"@ } else { s };
    if thinking && m == "deepseek-chat"@ {
        "deepseek-reasoner"@
    } else if !thinking && m == "deepseek-reasoner"@ {
        "deepseek-chat"@
    } else {
        m
    }
}

pub open spec fn max_context_of(n: Option<u64>) -> int {
    let c: u64 = match n {
        Some(c) => c,
        None => 24000,
    };
    if c < 4000 {
        4000
    } else if c > usize::MAX {
        usize::MAX as int
    } else {
        c as int
    }
}

pub open spec fn max_steps_of(n: Option<u64>) -> int {
    let c: u64 = match n {
        Some(c) => c,
        None => 16,
    };
    if c < 2 {
        2
    } else if c > 64 {
        64
    } else {
        c as int
    }
}

/// A setting's text without white space at the ends, empty where it is not set.
pub fn setting(map: &Json, key: &str) -> (r: String)
    ensures
        r@ == setting_text(map@, key@),
{
    text::trim(map.text(key).as_str())
}

fn strip_slashes(s: &str) -> (r: String)
    ensures
        r@ == no_slashes(s@),
{
    let v = text::chars_of(s);
    let mut j: usize = v.len();
    assert(v@.take(j as int) =~= v@);
    while j > 0 && v[j - 1] == '/'
        invariant
            j <= v@.len(),
            no_slashes(v@.take(j as int)) == no_slashes(v@),
        decreases j,
    {
        assert(v@.take(j as int).drop_last() =~= v@.take(j - 1));
        j -= 1;
    }
    let r = text::part_of(&v, 0, j);
    assert(r@ =~= v@.take(j as int));
    r
}

fn one_of(s: &str, a: &str, b: &str, c: &str, d: &str) -> (r: bool)
    ensures
        r == (s@ == a@ || s@ == b@ || s@ == c@ || s@ == d@),
{
    text::same(s, a) || text::same(s, b) || text::same(s, c) || text::same(s, d)
}

/// `cfg` is the configuration that the settings give.
pub open spec fn configured(map: json::Tree, figures: Figures, cfg: Config) -> bool {
    &&& cfg.api_key@ == setting_text(map, "apiKey"@)
    &&& cfg.base_url@ == base_url_of(setting_text(map, "baseUrl"@))
    &&& cfg.thinking == is_on(setting_text(map, "thinking"@))
    &&& cfg.model@ == model_of(setting_text(map, "model"@), cfg.thinking)
    &&& cfg.stream == !is_off(setting_text(map, "stream"@))
    &&& cfg.max_context == max_context_of(figures.context)
    &&& cfg.max_steps == max_steps_of(figures.steps)
    &&& cfg.price_in == figures.price_in
    &&& cfg.price_out == figures.price_out
    &&& cfg.budget_usd == figures.budget_usd
}

/// Whatever the settings hold, a task may take some steps and not too many, the
/// history has room, and the address does not end in a slash.
pub proof fn law_settings_are_within_bounds(map: json::Tree, figures: Figures, cfg: Config)
    requires
        configured(map, figures, cfg),
    ensures
        2 <= cfg.max_steps <= 64,
        4000 <= cfg.max_context,
        cfg.base_url@.len() > 0 ==> cfg.base_url@.last() != '/',
{
    lemma_no_slashes(setting_text(map, "baseUrl"@));
    reveal_strlit("https://api.deepseek.com/v1");
}

proof fn lemma_no_slashes(s: Seq<char>)
    ensures
        no_slashes(s).len() > 0 ==> no_slashes(s).last() != '/',
    decreases s.len(),
{
    if s.len() > 0 && s.last() == '/' {
        lemma_no_slashes(s.drop_last());
    }
}

/// Thinking is on where the setting is one of the words for that, in letters of either
/// case, and off where it is left out; streaming is off where the setting is one of the
/// words for that, and on where it is left out.
pub open spec fn goes_by_words(map: json::Tree, cfg: Config) -> bool {
    let t = setting_text(map, "thinking"@);
    let s = setting_text(map, "stream"@);
    &&& text::all_ascii(t) ==> {
        let l = t.map_values(|c: char| text::ascii_lower(c));
        cfg.thinking <==> l == "on"@ || l == "true"@ || l == "1"@ || l == "开"@
    }
    &&& text::all_ascii(s) ==> {
        let l = s.map_values(|c: char| text::ascii_lower(c));
        cfg.stream <==> !(l == "off"@ || l == "false"@ || l == "0"@ || l == "关"@)
    }
    &&& t.len() == 0 ==> !cfg.thinking
    &&& s.len() == 0 ==> cfg.stream
}

proof fn lemma_blank_is_no_word(s: Seq<char>)
    ensures
        s.len() == 0 ==> text::all_ascii(s),
        s.len() == 0 ==> s.map_values(|c: char| text::ascii_lower(c)).len() == 0,
        "on"@.len() > 0 && "true"@.len() > 0 && "1"@.len() > 0 && "开"@.len() > 0,
        "off"@.len() > 0 && "false"@.len() > 0 && "0"@.len() > 0 && "关"@.len() > 0,
{
    reveal_strlit("on");
    reveal_strlit("true");
    reveal_strlit("1");
    reveal_strlit("开");
    reveal_strlit("off");
    reveal_strlit("false");
    reveal_strlit("0");
    reveal_strlit("关");
}

impl Config {
    /// The configuration that the settings give. `figures` holds the settings that
    /// are decimal fractions.
    pub fn from_settings(map: &Json, figures: Figures) -> (r: Config)
        ensures
            configured(map@, figures, r),
            goes_by_words(map@, r),
    {
        let base = setting(map, "baseUrl");
        let base_url = if base.as_str().is_empty() {
            "https://api.deepseek.com/v1".to_owned()
        } else {
            strip_slashes(base.as_str())
        };
        let named = setting(map, "model");
        let mut model = if named.as_str().is_empty() {
            "deepseek-chat".to_owned()
        } else {
            named
        };
        proof {
            lemma_blank_is_no_word(setting_text(map@, "thinking"@));
            lemma_blank_is_no_word(setting_text(map@, "stream"@));
        }
        let think = text::to_lower(setting(map, "thinking").as_str());
        let thinking = one_of(think.as_str(), "on", "true", "1", "开");
        if thinking && text::same(model.as_str(), "deepseek-chat") {
            model = "deepseek-reasoner".to_owned();
        } else if !thinking && text::same(model.as_str(), "deepseek-reasoner") {
            model = "deepseek-chat".to_owned();
        }
        let flow = text::to_lower(setting(map, "stream").as_str());
        let context: u64 = match figures.context {
            Some(c) => c,
            None => 24000,
        };
        let steps: u64 = match figures.steps {
            Some(c) => c,
            None => 16,
        };
        Config {
            api_key: setting(map, "apiKey"),
            base_url,
            model,
            thinking,
            max_context: if context < 4000 {
                4000
            } else if context > usize::MAX as u64 {
                usize::MAX
            } else {
                context as usize
            },
            stream: !one_of(flow.as_str(), "off", "false", "0", "关"),
            price_in: figures.price_in,
            price_out: figures.price_out,
            budget_usd: figures.budget_usd,
            max_steps: if steps < 2 {
                2
            } else if steps > 64 {
                64
            } else {
                steps as u32
            },
        }
    }
}

/// A character that the estimate takes for a token of its own.
pub open spec fn is_wide(c: char) -> bool {
    c as u32 >= 0x2E80
}

pub open spec fn wide_chars(s: Seq<char>) -> nat
    decreases s.len(),
{
    if s.len() == 0 {
        0
    } else {
        wide_chars(s.drop_last()) + (if is_wide(s.last()) { 1nat } else { 0 })
    }
}

/// The estimated tokens of a text: one for each CJK character, one for every four
/// of the others, and one more.
pub open spec fn tokens(s: Seq<char>) -> nat {
    wide_chars(s) + ((s.len() - wide_chars(s)) as nat) / 4 + 1
}

pub proof fn lemma_wide_bound(s: Seq<char>)
    ensures
        wide_chars(s) <= s.len(),
    decreases s.len(),
{
    if s.len() > 0 {
        lemma_wide_bound(s.drop_last());
    }
}

/// The estimated tokens of a text, for trimming the history only.
pub fn est_tokens(s: &str) -> (r: usize)
    requires
        s@.len() < usize::MAX,
    ensures
        r == tokens(s@),
{
    let (total, wide) = count_chars(s);
    wide + (total - wide) / 4 + 1
}

/// The number of characters, and of those that count for a token each.
pub(crate) fn count_chars(s: &str) -> (r: (usize, usize))
    ensures
        r.0 == s@.len(),
        r.1 == wide_chars(s@),
        r.1 <= r.0,
{
    let v = text::chars_of(s);
    let mut wide: usize = 0;
    let mut i: usize = 0;
    assert(v@.take(0) =~= Seq::empty());
    while i < v.len()
        invariant
            i <= v@.len(),
            wide == wide_chars(v@.take(i as int)),
            wide <= i,
        decreases v@.len() - i,
    {
        assert(v@.take(i + 1).drop_last() =~= v@.take(i as int));
        if v[i] as u32 >= 0x2E80 {
            wide += 1;
        }
        i += 1;
    }
    assert(v@.take(v@.len() as int) =~= v@);
    (v.len(), wide)
}

/// The day that the local clock shows.
pub fn today() -> (r: Date)
    ensures
        r.wf(),
{
    date::local_now().date
}

pub open spec fn weekday_text(w: Weekday) -> Seq<char> {
    match w {
        Weekday::Mon => "周一"@,
        Weekday::Tue => "周二"@,
        Weekday::Wed => "周三"@,
        Weekday::Thu => "周四"@,
        Weekday::Fri => "周五"@,
        Weekday::Sat => "周六"@,
        Weekday::Sun => "周日"@,
    }
}

pub open spec fn weekday_at(i: int) -> Weekday {
    if i == 0 {
        Weekday::Mon
    } else if i == 1 {
        Weekday::Tue
    } else if i == 2 {
        Weekday::Wed
    } else if i == 3 {
        Weekday::Thu
    } else if i == 4 {
        Weekday::Fri
    } else if i == 5 {
        Weekday::Sat
    } else {
        Weekday::Sun
    }
}

/// The Chinese name of a weekday.
pub fn cn_weekday(w: Weekday) -> (r: &'static str)
    ensures
        r@ == weekday_text(w),
{
    match w {
        Weekday::Mon => "周一",
        Weekday::Tue => "周二",
        Weekday::Wed => "周三",
        Weekday::Thu => "周四",
        Weekday::Fri => "周五",
        Weekday::Sat => "周六",
        Weekday::Sun => "周日",
    }
}

fn weekday_from(i: u32) -> (r: Weekday)
    ensures
        r == weekday_at(i as int),
{
    if i == 0 {
        Weekday::Mon
    } else if i == 1 {
        Weekday::Tue
    } else if i == 2 {
        Weekday::Wed
    } else if i == 3 {
        Weekday::Thu
    } else if i == 4 {
        Weekday::Fri
    } else if i == 5 {
        Weekday::Sat
    } else {
        Weekday::Sun
    }
}

/// A moment as the system prompt tells it: the day, its weekday, hours and minutes.
pub open spec fn moment_text(m: Moment) -> Seq<char> {
    m.date.text() + "（"@ + weekday_text(weekday_at(m.date.weekday())) + "）"@ + text::two_digits(
        m.hour as nat,
    ) + ":"@ + text::two_digits(m.minute as nat)
}

pub fn moment_line(m: Moment) -> (r: String)
    requires
        m.wf(),
    ensures
        r@ == moment_text(m),
{
    let mut s = date::date_text(m.date);
    s.append("（");
    s.append(cn_weekday(weekday_from(date::weekday_index(m.date))));
    s.append("）");
    s.append(text::write_two(m.hour).as_str());
    s.append(":");
    s.append(text::write_two(m.minute).as_str());
    s
}

/// The present moment, as the system prompt tells it.
pub fn now_line() -> (r: String)
    ensures
        exists|m: Moment| m.wf() && r@ == moment_text(m),
{
    let m = date::local_now();
    moment_line(m)
}

/// A phrase without the white space at its ends, and without commas, full stops
/// and spaces within.
pub open spec fn tidied(s: Seq<char>) -> Seq<char> {
    text::without(text::trimmed(s), "，。 "@)
}

fn tidy(s: &str) -> (r: Vec<char>)
    ensures
        r@ == tidied(s@),
{
    let t = text::trim(s);
    text::strip_chars(&text::chars_of(t.as_str()), "，。 ")
}

/// The days from today of a day that has a name of its own.
pub open spec fn named_day(n: Seq<char>) -> Option<int> {
    if n == "今天"@ || n == "今日"@ || n == "当天"@ {
        Some(0)
    } else if n == "明天"@ || n == "明日"@ {
        Some(1)
    } else if n == "后天"@ {
        Some(2)
    } else if n == "大后天"@ {
        Some(3)
    } else {
        None
    }
}

/// A day written in figures: `YYYY-MM-DD`, `YYYY/MM/DD`, or `MM-DD` of the year `y`.
pub open spec fn written_day(y: int, n: Seq<char>) -> Option<int> {
    if let Some(d) = date::date_read(n, "%Y-%m-%d"@) {
        Some(date::day_number(d.0, d.1, d.2))
    } else if let Some(d) = date::date_read(n, "%Y/%m/%d"@) {
        Some(date::day_number(d.0, d.1, d.2))
    } else if let Some(d) = date::date_read(text::signed_decimal(y) + "-"@ + n, "%Y-%m-%d"@) {
        Some(date::day_number(d.0, d.1, d.2))
    } else {
        None
    }
}

/// A month and a day as today `t` understands them: the next such day, of this year
/// or the following; where neither is to come, that of this year.
pub open spec fn coming_day(t: Date, m: int, d: int) -> Option<int> {
    if date::valid_ymd(t.year as int, m, d) && date::day_number(t.year as int, m, d) >= t.number() {
        Some(date::day_number(t.year as int, m, d))
    } else if date::valid_ymd(t.year + 1, m, d) && date::day_number(t.year + 1, m, d) >= t.number() {
        Some(date::day_number(t.year + 1, m, d))
    } else if date::valid_ymd(t.year as int, m, d) {
        Some(date::day_number(t.year as int, m, d))
    } else {
        None
    }
}

/// A phrase `M月D日`, or `M月D`.
pub open spec fn month_day(t: Date, n: Seq<char>) -> Option<int> {
    let p = text::find(n, '月');
    let rest = n.skip(p + 1);
    match (text::read_u32(n.take(p)), text::read_u32(rest.take(text::find(rest, '日')))) {
        (Some(m), Some(d)) => coming_day(t, m as int, d as int),
        _ => None,
    }
}

/// The weekday, from Monday as 0, that a character names.
pub open spec fn weekday_named(r: Seq<char>) -> Option<int> {
    if r == "一"@ || r == "1"@ {
        Some(0)
    } else if r == "二"@ || r == "2"@ {
        Some(1)
    } else if r == "三"@ || r == "3"@ {
        Some(2)
    } else if r == "四"@ || r == "4"@ {
        Some(3)
    } else if r == "五"@ || r == "5"@ {
        Some(4)
    } else if r == "六"@ || r == "6"@ {
        Some(5)
    } else if r == "日"@ || r == "天"@ || r == "7"@ {
        Some(6)
    } else {
        None
    }
}

/// What follows `p` in `s`.
pub open spec fn rest_after(s: Seq<char>, p: Seq<char>) -> Option<Seq<char>> {
    if p.is_prefix_of(s) {
        Some(s.skip(p.len() as int))
    } else {
        None
    }
}

/// A weekday with the word for week before it: `星期X`, `礼拜X` or `周X`.
pub open spec fn unit_weekday(s: Seq<char>) -> Option<int> {
    if let Some(r) = rest_after(s, "星期"@) {
        weekday_named(r)
    } else if let Some(r) = rest_after(s, "礼拜"@) {
        weekday_named(r)
    } else if let Some(r) = rest_after(s, "周"@) {
        weekday_named(r)
    } else {
        None
    }
}

/// A weekday after a prefix that itself ends in the word for week.
pub open spec fn loose_weekday(s: Seq<char>) -> Option<int> {
    match weekday_named(s) {
        Some(w) => Some(w),
        None => unit_weekday(s),
    }
}

pub open spec fn in_week(weeks: Option<int>, w: Option<int>) -> Option<(Option<int>, int)> {
    match w {
        Some(w) => Some((weeks, w)),
        None => None,
    }
}

/// The week from this one, where one is named, and the weekday, of a phrase such as
/// `周三`, `下周三`, `下下周三`, `上周三`, `本周三`, or the same with `星期` or `礼拜`.
pub open spec fn week_phrase(n: Seq<char>) -> Option<(Option<int>, int)> {
    if let Some(r) = rest_after(n, "下下周"@) {
        in_week(Some(2), loose_weekday(r))
    } else if let Some(r) = rest_after(n, "下周"@) {
        in_week(Some(1), loose_weekday(r))
    } else if let Some(r) = rest_after(n, "上周"@) {
        in_week(Some(-1), loose_weekday(r))
    } else if let Some(r) = rest_after(n, "本周"@) {
        in_week(Some(0), loose_weekday(r))
    } else if let Some(r) = rest_after(n, "这周"@) {
        in_week(Some(0), loose_weekday(r))
    } else if let Some(r) = rest_after(n, "下下"@) {
        in_week(Some(2), unit_weekday(r))
    } else if let Some(r) = rest_after(n, "下"@) {
        in_week(Some(1), unit_weekday(r))
    } else if let Some(r) = rest_after(n, "上"@) {
        in_week(Some(-1), unit_weekday(r))
    } else if let Some(r) = rest_after(n, "本"@) {
        in_week(Some(0), unit_weekday(r))
    } else {
        in_week(None, unit_weekday(n))
    }
}

/// The day of a weekday, so many weeks from the week of `t`. Where no week is named it
/// is the next such day from `t` on.
pub open spec fn day_in_week(t: Date, weeks: Option<int>, w: int) -> int {
    let monday = t.number() - t.weekday();
    match weeks {
        Some(k) => monday + 7 * k + w,
        None => if monday + w < t.number() {
            monday + w + 7
        } else {
            monday + w
        },
    }
}

/// A phrase for a day other than a name of its own or figures.
pub open spec fn phrase_day(t: Date, n: Seq<char>) -> Option<int> {
    if text::find(n, '月') < n.len() {
        month_day(t, n)
    } else {
        match week_phrase(n) {
            Some((weeks, w)) => date::existing(day_in_week(t, weeks, w)),
            None => None,
        }
    }
}

/// The number of the day that a tidy phrase names on the day `t`.
pub open spec fn day_of(t: Date, n: Seq<char>) -> Option<int> {
    match named_day(n) {
        Some(k) => date::existing(t.number() + k),
        None => match written_day(t.year as int, n) {
            Some(x) => Some(x),
            None => phrase_day(t, n),
        },
    }
}

/// The same of a phrase without figures and hyphens.
pub open spec fn spoken_day(t: Date, n: Seq<char>) -> Option<int> {
    match named_day(n) {
        Some(k) => date::existing(t.number() + k),
        None => phrase_day(t, n),
    }
}

/// What stands before the part of a day that a phrase ends with: `明天` in `明天下午`.
pub open spec fn before_part(n: Seq<char>) -> Option<Seq<char>> {
    if n.len() >= 2 && (n.skip(n.len() - 2) == "上午"@ || n.skip(n.len() - 2) == "下午"@ || n.skip(
        n.len() - 2,
    ) == "晚上"@) {
        Some(n.take(n.len() - 2))
    } else {
        None
    }
}

/// The number of the day that `s` means on the day `t`. A part of a day after it
/// changes nothing.
pub open spec fn resolved(t: Date, s: Seq<char>) -> Option<int> {
    let n = tidied(s);
    match day_of(t, n) {
        Some(x) => Some(x),
        None => match before_part(n) {
            Some(m) => day_of(t, m),
            None => None,
        },
    }
}

/// The number of the day that a text without figures and hyphens means.
pub open spec fn spoken(t: Date, s: Seq<char>) -> Option<int> {
    let n = tidied(s);
    match spoken_day(t, n) {
        Some(x) => Some(x),
        None => match before_part(n) {
            Some(m) => spoken_day(t, m),
            None => None,
        },
    }
}

fn read_named(n: &str) -> (r: Option<i64>)
    ensures
        match r {
            Some(k) => named_day(n@) == Some(k as int) && 0 <= k <= 3,
            None => named_day(n@) is None,
        },
{
    if text::same(n, "今天") || text::same(n, "今日") || text::same(n, "当天") {
        Some(0)
    } else if text::same(n, "明天") || text::same(n, "明日") {
        Some(1)
    } else if text::same(n, "后天") {
        Some(2)
    } else if text::same(n, "大后天") {
        Some(3)
    } else {
        None
    }
}

fn read_weekday(r: &str) -> (w: Option<i64>)
    ensures
        match w {
            Some(k) => weekday_named(r@) == Some(k as int) && 0 <= k <= 6,
            None => weekday_named(r@) is None,
        },
{
    if text::same(r, "一") || text::same(r, "1") {
        Some(0)
    } else if text::same(r, "二") || text::same(r, "2") {
        Some(1)
    } else if text::same(r, "三") || text::same(r, "3") {
        Some(2)
    } else if text::same(r, "四") || text::same(r, "4") {
        Some(3)
    } else if text::same(r, "五") || text::same(r, "5") {
        Some(4)
    } else if text::same(r, "六") || text::same(r, "6") {
        Some(5)
    } else if text::same(r, "日") || text::same(r, "天") || text::same(r, "7") {
        Some(6)
    } else {
        None
    }
}

fn read_unit_weekday(s: &str) -> (w: Option<i64>)
    ensures
        match w {
            Some(k) => unit_weekday(s@) == Some(k as int) && 0 <= k <= 6,
            None => unit_weekday(s@) is None,
        },
{
    if let Some(r) = text::after(s, "星期") {
        read_weekday(r.as_str())
    } else if let Some(r) = text::after(s, "礼拜") {
        read_weekday(r.as_str())
    } else if let Some(r) = text::after(s, "周") {
        read_weekday(r.as_str())
    } else {
        None
    }
}

fn read_loose_weekday(s: &str) -> (w: Option<i64>)
    ensures
        match w {
            Some(k) => loose_weekday(s@) == Some(k as int) && 0 <= k <= 6,
            None => loose_weekday(s@) is None,
        },
{
    match read_weekday(s) {
        Some(k) => Some(k),
        None => read_unit_weekday(s),
    }
}

fn read_week(n: &str) -> (r: Option<(Option<i64>, i64)>)
    ensures
        match r {
            Some((Some(k), w)) => week_phrase(n@) == Some((Some(k as int), w as int)) && -1 <= k <= 2
                && 0 <= w <= 6,
            Some((None, w)) => week_phrase(n@) == Some((None::<int>, w as int)) && 0 <= w <= 6,
            None => week_phrase(n@) is None,
        },
{
    let (weeks, w): (Option<i64>, Option<i64>) = if let Some(r) = text::after(n, "下下周") {
        (Some(2), read_loose_weekday(r.as_str()))
    } else if let Some(r) = text::after(n, "下周") {
        (Some(1), read_loose_weekday(r.as_str()))
    } else if let Some(r) = text::after(n, "上周") {
        (Some(-1), read_loose_weekday(r.as_str()))
    } else if let Some(r) = text::after(n, "本周") {
        (Some(0), read_loose_weekday(r.as_str()))
    } else if let Some(r) = text::after(n, "这周") {
        (Some(0), read_loose_weekday(r.as_str()))
    } else if let Some(r) = text::after(n, "下下") {
        (Some(2), read_unit_weekday(r.as_str()))
    } else if let Some(r) = text::after(n, "下") {
        (Some(1), read_unit_weekday(r.as_str()))
    } else if let Some(r) = text::after(n, "上") {
        (Some(-1), read_unit_weekday(r.as_str()))
    } else if let Some(r) = text::after(n, "本") {
        (Some(0), read_unit_weekday(r.as_str()))
    } else {
        (None, read_unit_weekday(n))
    };
    match w {
        Some(k) => Some((weeks, k)),
        None => None,
    }
}

fn read_month_day(t: Date, v: &Vec<char>, p: usize) -> (r: Option<Date>)
    requires
        t.wf(),
        p == text::find(v@, '月'),
        p < v.len(),
    ensures
        date::is_day(r, month_day(t, v@)),
{
    let head = text::slice_of(v, 0, p);
    let rest = text::slice_of(v, p + 1, v.len());
    let end = text::find_char(&rest, '日');
    let tail = text::slice_of(&rest, 0, end);
    assert(head@ =~= v@.take(p as int));
    assert(rest@ =~= v@.skip(p + 1));
    assert(tail@ =~= rest@.take(end as int));
    let m = match text::parse_u32(&head) {
        Some(m) => m,
        None => return None,
    };
    let d = match text::parse_u32(&tail) {
        Some(d) => d,
        None => return None,
    };
    let now = date::number_of(t);
    let here = date::date_exists(t.year, m, d);
    let this = Date { year: t.year, month: m, day: d };
    if here && date::number_of(this) >= now {
        return Some(this);
    }
    if date::date_exists(t.year + 1, m, d) {
        let next = Date { year: t.year + 1, month: m, day: d };
        if date::number_of(next) >= now {
            return Some(next);
        }
    }
    if here {
        Some(this)
    } else {
        None
    }
}

proof fn lemma_one_dash(y: int, n: Seq<char>)
    requires
        0 <= y,
        !n.contains('-'),
    ensures
        !date::twice(text::signed_decimal(y) + "-"@ + n, '-'),
{
    reveal_strlit("-");
    let s = text::signed_decimal(y) + "-"@ + n;
    let k = text::decimal(y as nat).len();
    lemma_decimal_digits(y as nat);
    assert forall|i: int| 0 <= i < s.len() && i != k implies s[i] != '-' by {
        if i < k {
            assert(s[i] == text::decimal(y as nat)[i]);
            assert(text::is_digit(text::decimal(y as nat)[i]));
        } else {
            assert(s[i] == n[i - k - 1]);
        }
    }
}

pub proof fn lemma_decimal_digits(n: nat)
    ensures
        text::all_digits(text::decimal(n)),
        text::decimal(n).len() > 0,
    decreases n,
{
    if n >= 10 {
        lemma_decimal_digits(n / 10);
    }
}

pub proof fn lemma_without_none(s: Seq<char>, drop: Seq<char>)
    requires
        forall|i: int| 0 <= i < s.len() ==> !drop.contains(#[trigger] s[i]),
    ensures
        text::without(s, drop) == s,
    decreases s.len(),
{
    if s.len() > 0 {
        lemma_without_none(s.drop_last(), drop);
        assert(!drop.contains(s[s.len() - 1]));
        assert(s.drop_last().push(s.last()) =~= s);
    }
}

/// Digits, hyphens and colons stay as they are.
pub proof fn lemma_plain(s: Seq<char>)
    requires
        s.len() > 0,
        forall|i: int| 0 <= i < s.len() ==> text::is_digit(#[trigger] s[i]) || s[i] == '-' || s[i] == ':',
    ensures
        tidied(s) == s,
{
    assert(!text::is_white(s[0]));
    assert(!text::is_white(s[s.len() - 1]));
    assert(text::trimmed(s) =~= s);
    reveal_strlit("，。 ");
    assert forall|i: int| 0 <= i < s.len() implies !"，。 "@.contains(#[trigger] s[i]) by {
    }
    lemma_without_none(s, "，。 "@);
}

pub proof fn lemma_decimal_len(n: nat)
    ensures
        n < 10 ==> text::decimal(n).len() == 1,
        10 <= n < 100 ==> text::decimal(n).len() == 2,
        100 <= n < 1000 ==> text::decimal(n).len() == 3,
        1000 <= n < 10000 ==> text::decimal(n).len() == 4,
{
    reveal_with_fuel(text::decimal, 4);
}

/// Figures written as `YYYY-MM-DD` are tidy, and no day has such a name.
proof fn lemma_iso(y: int, m: int, d: int)
    requires
        date::in_figures(y, m, d),
    ensures
        tidied(date::iso(y, m, d)) == date::iso(y, m, d),
        named_day(date::iso(y, m, d)) is None,
{
    reveal_strlit("-");
    reveal_strlit("0");
    reveal_strlit("00");
    reveal_strlit("000");
    lemma_decimal_digits(y as nat);
    lemma_decimal_digits(m as nat);
    lemma_decimal_digits(d as nat);
    lemma_decimal_len(y as nat);
    lemma_decimal_len(m as nat);
    lemma_decimal_len(d as nat);
    let s = date::iso(y, m, d);
    assert(s.len() == 10);
    lemma_plain(s);
    lemma_no_name(s);
}

/// A text that holds a digit first is no day's name.
proof fn lemma_no_name(s: Seq<char>)
    requires
        s.len() > 0,
        text::is_digit(s[0]),
    ensures
        named_day(s) is None,
{
    reveal_strlit("今天");
    reveal_strlit("今日");
    reveal_strlit("当天");
    reveal_strlit("明天");
    reveal_strlit("明日");
    reveal_strlit("后天");
    reveal_strlit("大后天");
    assert("今天"@[0] == '今' && "今日"@[0] == '今' && "当天"@[0] == '当' && "明天"@[0] == '明'
        && "明日"@[0] == '明' && "后天"@[0] == '后' && "大后天"@[0] == '大');
}

/// Figures written as `YYYY/M/D` are tidy, hold no hyphen, and no day has such a name.
proof fn lemma_slashed(y: int, m: int, d: int)
    requires
        date::in_figures(y, m, d),
    ensures
        tidied(date::slashed(y, m, d)) == date::slashed(y, m, d),
        named_day(date::slashed(y, m, d)) is None,
        !date::twice(date::slashed(y, m, d), '-'),
{
    reveal_strlit("/");
    reveal_strlit("0");
    reveal_strlit("00");
    reveal_strlit("000");
    lemma_decimal_digits(y as nat);
    lemma_decimal_digits(m as nat);
    lemma_decimal_digits(d as nat);
    lemma_decimal_len(y as nat);
    let s = date::slashed(y, m, d);
    let a = date::year_text(y);
    let b = text::decimal(m as nat);
    let c = text::decimal(d as nat);
    assert(a.len() == 4);
    assert forall|i: int| 0 <= i < s.len() implies text::is_digit(#[trigger] s[i]) || s[i] == '/' by {
        if i < 4 {
            assert(s[i] == a[i]);
        } else if i > 4 && i < 5 + b.len() {
            assert(s[i] == b[i - 5]);
        } else if i > 5 + b.len() {
            assert(s[i] == c[i - 6 - b.len()]);
        }
    }
    assert(s[0] == a[0]);
    lemma_tidy(s);
    lemma_no_name(s);
}

/// Figures written as `MM-DD` are tidy, with one hyphen and no slash, and mean nothing
/// else.
proof fn lemma_in_year(t: Date, m: int, d: int)
    requires
        date::in_figures(t.year as int, m, d),
    ensures
        tidied(date::in_year(m, d)) == date::in_year(m, d),
        named_day(date::in_year(m, d)) is None,
        phrase_day(t, date::in_year(m, d)) is None,
        before_part(date::in_year(m, d)) is None,
        !date::twice(date::in_year(m, d), '-'),
        !date::twice(date::in_year(m, d), '/'),
        text::signed_decimal(t.year as int) + "-"@ + date::in_year(m, d) == date::dated(
            t.year as int,
            m,
            d,
        ),
{
    reveal_strlit("-");
    lemma_decimal_digits(m as nat);
    lemma_decimal_digits(d as nat);
    lemma_decimal_len(m as nat);
    lemma_decimal_len(d as nat);
    let s = date::in_year(m, d);
    assert(s.len() == 5);
    assert(text::is_digit(s[0]) && text::is_digit(s[1]) && s[2] == '-' && text::is_digit(s[3])
        && text::is_digit(s[4]));
    lemma_plain(s);
    lemma_no_name(s);
    lemma_no_phrase(t, s);
}

/// A text that begins and ends with a digit, and does not speak of a month, is no phrase.
proof fn lemma_no_phrase(t: Date, s: Seq<char>)
    requires
        s.len() >= 2,
        text::is_digit(s[0]),
        text::is_digit(s[s.len() - 1]),
        !s.contains('月'),
    ensures
        phrase_day(t, s) is None,
        before_part(s) is None,
{
    lemma_not_found(s, '月', 0);
    reveal_strlit("下下周");
    reveal_strlit("下周");
    reveal_strlit("上周");
    reveal_strlit("本周");
    reveal_strlit("这周");
    reveal_strlit("下下");
    reveal_strlit("下");
    reveal_strlit("上");
    reveal_strlit("本");
    reveal_strlit("星期");
    reveal_strlit("礼拜");
    reveal_strlit("周");
    assert("下下周"@[0] == '下' && "下周"@[0] == '下' && "上周"@[0] == '上' && "本周"@[0] == '本'
        && "这周"@[0] == '这' && "下下"@[0] == '下' && "下"@[0] == '下' && "上"@[0] == '上'
        && "本"@[0] == '本' && "星期"@[0] == '星' && "礼拜"@[0] == '礼' && "周"@[0] == '周');
    reveal_strlit("上午");
    reveal_strlit("下午");
    reveal_strlit("晚上");
    assert(s.skip(s.len() - 2)[1] == s[s.len() - 1]);
    assert("上午"@[1] == '午' && "下午"@[1] == '午' && "晚上"@[1] == '上');
}

pub proof fn lemma_not_found(s: Seq<char>, c: char, i: int)
    requires
        0 <= i <= s.len(),
        !s.contains(c),
    ensures
        text::find_from(s, c, i) == s.len(),
    decreases s.len() - i,
{
    if i < s.len() {
        assert(s.contains(s[i]));
        lemma_not_found(s, c, i + 1);
    }
}

fn read_day(t: Date, v: &Vec<char>) -> (r: Option<Date>)
    requires
        t.wf(),
    ensures
        date::is_day(r, day_of(t, v@)),
        t.year >= 0 && !v@.contains('-') && !v@.contains('/') ==> day_of(t, v@) == spoken_day(t, v@),
        forall|y: int, m: int, d: int|
            #![trigger date::iso(y, m, d)]
            date::in_figures(y, m, d) && date::valid_ymd(y, m, d) && v@ == date::iso(y, m, d)
                ==> date::ymd(r) == Some((y, m, d)),
        forall|y: int, m: int, d: int|
            #![trigger date::slashed(y, m, d)]
            date::in_figures(y, m, d) && date::valid_ymd(y, m, d) && v@ == date::slashed(y, m, d)
                ==> date::ymd(r) == Some((y, m, d)),
        forall|m: int, d: int|
            #![trigger date::in_year(m, d)]
            date::in_figures(t.year as int, m, d) && v@ == date::in_year(m, d)
                ==> date::ymd(r) == date::ymd_of(t.year as int, m, d),
{
    let n = text::string_of(v);
    proof {
        assert forall|y: int, m: int, d: int|
            #![trigger date::iso(y, m, d)]
            date::in_figures(y, m, d) && v@ == date::iso(y, m, d) implies named_day(n@) is None by {
            lemma_iso(y, m, d);
        }
        assert forall|y: int, m: int, d: int|
            #![trigger date::slashed(y, m, d)]
            date::in_figures(y, m, d) && v@ == date::slashed(y, m, d) implies named_day(n@) is None
            && !date::twice(n@, '-') by {
            lemma_slashed(y, m, d);
        }
        assert forall|m: int, d: int|
            #![trigger date::in_year(m, d)]
            date::in_figures(t.year as int, m, d) && v@ == date::in_year(m, d) implies named_day(n@) is None
            && !date::twice(n@, '-') && !date::twice(n@, '/') && phrase_day(t, n@) is None
            && text::signed_decimal(t.year as int) + "-"@ + n@ == date::dated(
            t.year as int,
            m,
            d,
        ) by {
            lemma_in_year(t, m, d);
        }
    }
    match read_named(n.as_str()) {
        Some(k) => {
            return date::shift(t, k);
        },
        None => {},
    }
    if let Some(d) = date::parse_date(n.as_str(), "%Y-%m-%d") {
        return Some(d);
    }
    if let Some(d) = date::parse_date(n.as_str(), "%Y/%m/%d") {
        return Some(d);
    }
    let mut dated = text::write_i64(t.year as i64);
    dated.append("-");
    dated.append(n.as_str());
    proof {
        if t.year >= 0 && !n@.contains('-') {
            lemma_one_dash(t.year as int, n@);
        }
    }
    if let Some(d) = date::parse_date(dated.as_str(), "%Y-%m-%d") {
        return Some(d);
    }
    let p = text::find_char(v, '月');
    if p < v.len() {
        return read_month_day(t, v, p);
    }
    match read_week(n.as_str()) {
        Some((weeks, w)) => {
            let at: i64 = date::weekday_index(t) as i64;
            let delta: i64 = match weeks {
                Some(k) => 7 * k + w - at,
                None => if w < at {
                    w - at + 7
                } else {
                    w - at
                },
            };
            date::shift(t, delta)
        },
        None => None,
    }
}

fn read_before_part(v: &Vec<char>) -> (r: Option<Vec<char>>)
    ensures
        match r {
            Some(m) => before_part(v@) == Some(m@),
            None => before_part(v@) is None,
        },
{
    if v.len() < 2 {
        return None;
    }
    let end = text::part_of(v, v.len() - 2, v.len());
    assert(end@ =~= v@.skip(v@.len() - 2));
    if text::same(end.as_str(), "上午") || text::same(end.as_str(), "下午") || text::same(
        end.as_str(),
        "晚上",
    ) {
        let m = text::slice_of(v, 0, v.len() - 2);
        assert(m@ =~= v@.take(v@.len() - 2));
        Some(m)
    } else {
        None
    }
}

/// `YYYY-MM-DD` and `YYYY/M/D` are read as the day that they write, whatever the day is.
pub open spec fn means_its_figures(s: Seq<char>, r: Option<Date>) -> bool {
    &&& forall|d: Date|
        #![trigger d.text()]
        d.wf() && 0 <= d.year <= 9999 && s == d.text() ==> r == Some(d)
    &&& forall|d: Date|
        #![trigger d.slashed()]
        d.wf() && 0 <= d.year <= 9999 && s == d.slashed() ==> r == Some(d)
}

/// Where `s` names a weekday, `r` is that day: of the week that is named, or the first
/// from `t` on.
pub open spec fn means_its_weekday(t: Date, s: Seq<char>, r: Option<Date>) -> bool {
    forall|p: Seq<char>, u: Seq<char>, x: Seq<char>, weeks: Option<int>, w: int|
        #![trigger days::is_week_before(p, u, weeks), days::is_weekday_word(w, x)]
        t.year >= 0 && days::is_week_word(u) && days::is_week_before(p, u, weeks)
            && days::is_weekday_word(w, x) && s == p + u + x ==> date::is_day(
            r,
            date::existing(days::weekday_from(t, weeks, w)),
        )
}

/// `MM-DD` is read as that day of the year of `t`, where it exists.
pub open spec fn means_its_day(t: Date, s: Seq<char>, r: Option<Date>) -> bool {
    forall|m: int, d: int|
        #![trigger date::in_year(m, d)]
        date::in_figures(t.year as int, m, d) && s == date::in_year(m, d) ==> date::ymd(r)
            == date::ymd_of(t.year as int, m, d)
}

/// The day that `s` means on the day `t`: a day with a name of its own (`今天`,
/// `明天`, `后天`, `大后天`), a weekday of some week, `M月D日`, `YYYY-MM-DD`,
/// `YYYY/M/D` or `MM-DD`, and each of these with a part of the day after it. A text
/// without hyphens and slashes is read by the rules of `spoken` alone; `YYYY-MM-DD` and
/// `YYYY/M/D` mean the day that they write, and `MM-DD` that day of the year of `t`, where
/// it exists.
pub fn resolve_date_on(t: Date, s: &str) -> (r: Option<Date>)
    requires
        t.wf(),
    ensures
        date::is_day(r, resolved(t, s@)),
        t.year >= 0 && !tidied(s@).contains('-') && !tidied(s@).contains('/') ==> resolved(t, s@)
            == spoken(t, s@),
        means_its_figures(s@, r),
        means_its_day(t, s@, r),
        means_its_weekday(t, s@, r),
{
    let v = tidy(s);
    proof {
        assert forall|p: Seq<char>, u: Seq<char>, x: Seq<char>, weeks: Option<int>, w: int|
            #![trigger days::is_week_before(p, u, weeks), days::is_weekday_word(w, x)]
            days::is_week_word(u) && days::is_week_before(p, u, weeks) && days::is_weekday_word(
                w,
                x,
            ) && s@ == p + u + x implies spoken(t, s@) == date::existing(
            days::weekday_from(t, weeks, w),
        ) && !v@.contains('-') && !v@.contains('/') by {
            days::law_weekdays_mean_their_day(t, p, u, x, weeks, w);
            days::lemma_phrase_letters(p, u, x, weeks, w);
            lemma_tidy(s@);
        }
        assert forall|d: Date| #![trigger d.text()] d.wf() && 0 <= d.year <= 9999 && s@ == d.text() implies v@
            == date::iso(d.year as int, d.month as int, d.day as int) by {
            lemma_iso(d.year as int, d.month as int, d.day as int);
        }
        assert forall|d: Date|
            #![trigger d.slashed()]
            d.wf() && 0 <= d.year <= 9999 && s@ == d.slashed() implies v@ == date::slashed(
            d.year as int,
            d.month as int,
            d.day as int,
        ) by {
            lemma_slashed(d.year as int, d.month as int, d.day as int);
        }
        assert forall|m: int, d: int|
            #![trigger date::in_year(m, d)]
            date::in_figures(t.year as int, m, d) && s@ == date::in_year(m, d) implies v@
            == date::in_year(m, d) && before_part(v@) is None by {
            lemma_in_year(t, m, d);
        }
    }
    if let Some(d) = read_day(t, &v) {
        return Some(d);
    }
    match read_before_part(&v) {
        Some(m) => {
            assert(!v@.contains('-') ==> !m@.contains('-')) by {
                if m@.contains('-') {
                    let i = choose|i: int| 0 <= i < m@.len() && m@[i] == '-';
                    assert(v@[i] == '-');
                }
            }
            assert(!v@.contains('/') ==> !m@.contains('/')) by {
                if m@.contains('/') {
                    let i = choose|i: int| 0 <= i < m@.len() && m@[i] == '/';
                    assert(v@[i] == '/');
                }
            }
            read_day(t, &m)
        },
        None => None,
    }
}

/// The day that `s` means today.
pub fn resolve_date(s: &str) -> (r: Option<Date>)
    ensures
        means_its_figures(s@, r),
        exists|t: Date|
            t.wf() && date::is_day(r, #[trigger] resolved(t, s@)) && means_its_day(t, s@, r)
                && means_its_weekday(t, s@, r),
{
    let t = today();
    let r = resolve_date_on(t, s);
    assert(date::is_day(r, resolved(t, s@)) && means_its_day(t, s@, r) && means_its_weekday(
        t,
        s@,
        r,
    ));
    r
}

/// The library's seats are offered for today (0) and tomorrow (1) only.
pub open spec fn choice(t: Date, s: Seq<char>) -> Result<u8, Seq<char>> {
    match resolved(t, s) {
        Some(n) => if n == t.number() {
            Ok(0)
        } else if n == t.number() + 1 {
            Ok(1)
        } else {
            Err("图书馆座位只支持今天(0)或明天(1)，更远的日期请改天再来查。"@)
        },
        None => Err("无法理解日期「"@ + s + "」，请用 今天/明天 或 YYYY-MM-DD。"@),
    }
}

pub open spec fn choice_of(r: Result<u8, String>) -> Result<u8, Seq<char>> {
    match r {
        Ok(n) => Ok(n),
        Err(e) => Err(e@),
    }
}

/// Which of the two days that seats are offered for `s` means on the day `t`.
pub fn date_choice_on(t: Date, s: &str) -> (r: Result<u8, String>)
    requires
        t.wf(),
    ensures
        choice_of(r) == choice(t, s@),
{
    match resolve_date_on(t, s) {
        Some(d) => {
            let n = date::number_of(d) as i64 - date::number_of(t) as i64;
            if n == 0 {
                Ok(0)
            } else if n == 1 {
                Ok(1)
            } else {
                Err("图书馆座位只支持今天(0)或明天(1)，更远的日期请改天再来查。".to_owned())
            }
        },
        None => Err(text::cat3("无法理解日期「", s, "」，请用 今天/明天 或 YYYY-MM-DD。")),
    }
}

/// Which of the two days that seats are offered for `s` means today.
pub fn date_choice(s: &str) -> (r: Result<u8, String>)
    ensures
        exists|t: Date| t.wf() && choice_of(r) == #[trigger] choice(t, s@),
{
    let t = today();
    date_choice_on(t, s)
}

/// The first position at or after `i` that holds no digit.
pub open spec fn digits_end(s: Seq<char>, i: int) -> int
    decreases s.len() - i,
{
    if i < s.len() && text::is_digit(s[i]) {
        digits_end(s, i + 1)
    } else {
        i
    }
}

/// The minutes after `点`: `半` for thirty, the digits that follow, or none for zero.
pub open spec fn minutes_of(rest: Seq<char>) -> Option<u32> {
    let k = digits_end(rest, 0);
    if rest.len() > 0 && rest[0] == '半' {
        Some(30)
    } else if k == 0 {
        Some(0)
    } else {
        text::read_u32(rest.take(k))
    }
}

/// A time with a colon.
pub open spec fn colon_time(n: Seq<char>) -> Option<(u32, u32)> {
    let p = text::find(n, ':');
    match text::read_u32(n.take(p)) {
        Some(h) => {
            let m: u32 = match text::read_u32(text::first_chars(n.skip(p + 1), 2)) {
                Some(m) => m,
                None => 0,
            };
            if h < 24 && m < 60 {
                Some((h, m))
            } else {
                None
            }
        },
        None => None,
    }
}

/// A time told in words: `8点`, `8点半`, `8点15`, `下午3点`.
pub open spec fn told_time(n: Seq<char>) -> Option<(u32, u32)> {
    let pm = text::occurs(n, "下午"@) || text::occurs(n, "晚上"@);
    let am = text::occurs(n, "上午"@);
    let core = text::without(n, "上午下晚中"@);
    let p = text::find(core, '点');
    if p < core.len() {
        match (text::read_u32(core.take(p)), minutes_of(core.skip(p + 1))) {
            (Some(h0), Some(m)) => {
                let h1 = if pm && h0 < 12 { h0 + 12 } else { h0 as int };
                let h = if am && h1 == 12 { 0 } else { h1 };
                if h < 24 && m < 60 {
                    Some((h as u32, m))
                } else {
                    None
                }
            },
            _ => None,
        }
    } else {
        None
    }
}

/// The hours and minutes that `s` means.
pub open spec fn clock_time(s: Seq<char>) -> Option<(u32, u32)> {
    let n = tidied(s);
    if text::find(n, ':') < n.len() {
        colon_time(n)
    } else {
        told_time(n)
    }
}

fn read_minutes(rest: &Vec<char>) -> (r: Option<u32>)
    ensures
        r == minutes_of(rest@),
{
    if rest.len() > 0 && rest[0] == '半' {
        return Some(30);
    }
    let mut k: usize = 0;
    while k < rest.len() && '0' <= rest[k] && rest[k] <= '9'
        invariant
            k <= rest@.len(),
            digits_end(rest@, k as int) == digits_end(rest@, 0),
        decreases rest@.len() - k,
    {
        k += 1;
    }
    if k == 0 {
        return Some(0);
    }
    let digits = text::slice_of(rest, 0, k);
    assert(digits@ =~= rest@.take(k as int));
    text::parse_u32(&digits)
}

/// The hours and minutes of `HH:MM`, or of a time told as `8点半` or `下午3点`.
pub fn resolve_hhmm(s: &str) -> (r: Option<(u32, u32)>)
    ensures
        r == clock_time(s@),
        r matches Some((h, m)) ==> h < 24 && m < 60,
{
    let v = tidy(s);
    let p = text::find_char(&v, ':');
    if p < v.len() {
        let head = text::slice_of(&v, 0, p);
        let end = if v.len() - (p + 1) > 2 {
            p + 3
        } else {
            v.len()
        };
        let tail = text::slice_of(&v, p + 1, end);
        assert(head@ =~= v@.take(p as int));
        assert(tail@ =~= text::first_chars(v@.skip(p + 1), 2));
        let h = match text::parse_u32(&head) {
            Some(h) => h,
            None => return None,
        };
        let m: u32 = match text::parse_u32(&tail) {
            Some(m) => m,
            None => 0,
        };
        if h < 24 && m < 60 {
            return Some((h, m));
        }
        return None;
    }
    let n = text::string_of(&v);
    let pm = text::contains(n.as_str(), "下午") || text::contains(n.as_str(), "晚上");
    let am = text::contains(n.as_str(), "上午");
    let core = text::strip_chars(&v, "上午下晚中");
    let p = text::find_char(&core, '点');
    if p < core.len() {
        let head = text::slice_of(&core, 0, p);
        let rest = text::slice_of(&core, p + 1, core.len());
        assert(head@ =~= core@.take(p as int));
        assert(rest@ =~= core@.skip(p + 1));
        let mut h = match text::parse_u32(&head) {
            Some(h) => h,
            None => return None,
        };
        let m = match read_minutes(&rest) {
            Some(m) => m,
            None => return None,
        };
        if pm && h < 12 {
            h += 12;
        }
        if am && h == 12 {
            h = 0;
        }
        if h < 24 && m < 60 {
            return Some((h, m));
        }
    }
    None
}

/// A text without white space, commas and full stops is tidy already.
pub proof fn lemma_tidy(s: Seq<char>)
    requires
        forall|i: int|
            0 <= i < s.len() ==> !text::is_white(#[trigger] s[i]) && s[i] != '，' && s[i] != '。',
    ensures
        tidied(s) == s,
{
    if s.len() > 0 {
        assert(text::skip_white(s, 0) == 0);
        assert(!text::is_white(s[s.len() - 1]));
        assert(text::back_white(s, 0, s.len() as int) == s.len());
    }
    assert(text::trimmed(s) =~= s);
    lemma_nothing_dropped(s);
}

proof fn lemma_nothing_dropped(s: Seq<char>)
    requires
        forall|i: int|
            0 <= i < s.len() ==> !text::is_white(#[trigger] s[i]) && s[i] != '，' && s[i] != '。',
    ensures
        text::without(s, "，。 "@) == s,
    decreases s.len(),
{
    if s.len() > 0 {
        lemma_nothing_dropped(s.drop_last());
        reveal_strlit("，。 ");
        let c = s[s.len() - 1];
        assert("，。 "@[0] == '，' && "，。 "@[1] == '。' && "，。 "@[2] == ' ');
        assert(text::is_white(' '));
        assert(!"，。 "@.contains(c));
        assert(s.drop_last().push(c) =~= s);
    }
}

/// What ends in the word for day names no part of one.
proof fn lemma_whole_day(n: Seq<char>)
    requires
        n.len() >= 2,
        n.last() == '天',
    ensures
        before_part(n) is None,
{
    reveal_strlit("上午");
    reveal_strlit("下午");
    reveal_strlit("晚上");
    assert(n.skip(n.len() - 2)[1] == '天');
    assert("上午"@[1] == '午' && "下午"@[1] == '午' && "晚上"@[1] == '上');
}

/// The days with a name of their own are today and the three that follow, as far as
/// they exist.
pub proof fn law_named_days_count_from_today(t: Date)
    requires
        t.wf(),
    ensures
        resolved(t, "今天"@) == Some(t.number()),
        resolved(t, "明天"@) == date::existing(t.number() + 1),
        resolved(t, "后天"@) == date::existing(t.number() + 2),
        resolved(t, "大后天"@) == date::existing(t.number() + 3),
{
    date::lemma_in_calendar(t);
    reveal_strlit("今天");
    reveal_strlit("明天");
    reveal_strlit("后天");
    reveal_strlit("大后天");
    reveal_strlit("今日");
    reveal_strlit("当天");
    reveal_strlit("明日");
    lemma_tidy("今天"@);
    lemma_tidy("明天"@);
    lemma_tidy("后天"@);
    lemma_tidy("大后天"@);
    assert("今天"@[0] == '今' && "今日"@[0] == '今' && "当天"@[0] == '当');
    assert("明天"@[0] == '明' && "明日"@[0] == '明' && "后天"@[0] == '后');
    assert("大后天"@.len() == 3);
    lemma_whole_day("明天"@);
    lemma_whole_day("后天"@);
    lemma_whole_day("大后天"@);
}

/// In thinking mode DeepSeek's chat model is never asked, and out of it never the
/// reasoner.
pub proof fn law_thinking_picks_the_model(s: Seq<char>, thinking: bool)
    ensures
        thinking ==> model_of(s, thinking) != "deepseek-chat"@,
        !thinking ==> model_of(s, thinking) != "deepseek-reasoner"@,
{
    reveal_strlit("deepseek-chat");
    reveal_strlit("deepseek-reasoner");
    assert("deepseek-chat"@.len() != "deepseek-reasoner"@.len());
}

/// A weekday without a week is the nearest such day from today on; one of a week that
/// is named, this one included, lies in that week, counted from the Monday of this one.
/// Either way the day has the weekday that was asked for.
pub proof fn law_weekday_falls_in_its_week(t: Date, weeks: Option<int>, w: int)
    requires
        t.wf(),
        0 <= w <= 6,
    ensures
        (day_in_week(t, weeks, w) - 1) % 7 == w,
        match weeks {
            None => t.number() <= day_in_week(t, weeks, w) < t.number() + 7,
            Some(k) => {
                let monday = t.number() - t.weekday() + 7 * k;
                monday <= day_in_week(t, weeks, w) < monday + 7
            },
        },
{
}

/// A month and a day mean the next such day: none lies between today and it.
pub proof fn law_month_day_is_the_next(t: Date, m: int, d: int, y: int)
    requires
        t.wf(),
        1 <= m <= 12,
        1 <= d <= 31,
    ensures
        coming_day(t, m, d) matches Some(n) ==> n >= t.number() && date::valid_ymd(y, m, d)
            && date::day_number(y, m, d) >= t.number() ==> n <= date::day_number(y, m, d),
{
    if date::valid_ymd(y, m, d) {
        let e = Date { year: y as i32, month: m as u32, day: d as u32 };
        assert(e.wf());
        date::law_number_orders_days(t, e);
        if date::valid_ymd(t.year as int, m, d) {
            let f = Date { year: t.year, month: m as u32, day: d as u32 };
            assert(f.wf());
            date::law_number_orders_days(e, f);
            date::law_number_orders_days(f, e);
        }
        if date::valid_ymd(t.year + 1, m, d) {
            let g = Date { year: (t.year + 1) as i32, month: m as u32, day: d as u32 };
            assert(g.wf());
            date::law_number_orders_days(e, g);
            date::law_number_orders_days(g, e);
        }
    }
}

pub proof fn lemma_decimal_value(n: nat)
    ensures
        text::dec_value(text::decimal(n)) == n,
    decreases n,
{
    reveal_with_fuel(text::dec_value, 2);
    if n >= 10 {
        lemma_decimal_value(n / 10);
        assert(text::decimal(n).drop_last() =~= text::decimal(n / 10));
    }
}

pub proof fn lemma_two_digits(n: nat)
    requires
        n < 100,
    ensures
        text::two_digits(n).len() == 2,
        text::all_digits(text::two_digits(n)),
        text::read_u32(text::two_digits(n)) == Some(n as u32),
{
    lemma_decimal_digits(n);
    lemma_decimal_len(n);
    lemma_decimal_value(n);
    let s = text::two_digits(n);
    if n < 10 {
        reveal_with_fuel(text::dec_value, 3);
        assert(s.drop_last() =~= seq!['0']);
        assert(seq!['0'].drop_last() =~= Seq::<char>::empty());
        assert(s.last() == text::digit_char(n));
    }
    assert(text::is_digit(s[0]));
    assert(text::unsigned_part(s) == s);
}

pub proof fn lemma_find_first(s: Seq<char>, c: char, i: int, k: int)
    requires
        0 <= i <= k < s.len(),
        s[k] == c,
        forall|j: int| i <= j < k ==> s[j] != c,
    ensures
        text::find_from(s, c, i) == k,
    decreases k - i,
{
    if i < k {
        lemma_find_first(s, c, i + 1, k);
    }
}

} // verus!
