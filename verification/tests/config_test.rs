use chrono::Datelike;
use onethu_harness::config::{
    cn_weekday, date_choice, date_choice_on, est_tokens, moment_line, now_line, resolve_date,
    resolve_date_on, resolve_hhmm, setting, today, Config, Figures,
};
use onethu_harness::date::{Date, Moment, Weekday};
use onethu_harness::json::{Json, Num, Rec};

#[test]
fn est_tokens_basic() {
    assert!(est_tokens("你好世界") >= 4);
    assert!(est_tokens("abcdef") >= 2);
}

#[test]
fn est_tokens_counts_exactly() {
    assert_eq!(est_tokens(""), 1);
    assert_eq!(est_tokens("你好世界"), 5);
    assert_eq!(est_tokens("abcdef"), 2);
    assert_eq!(est_tokens("hello 你好"), 4);
    assert_eq!(est_tokens("\u{2E7F}\u{2E80}"), 2);
}

fn day(year: i32, month: u32, day: u32) -> Date {
    Date { year, month, day }
}

/// A Wednesday.
fn wednesday() -> Date {
    day(2025, 9, 10)
}

fn on(s: &str) -> Option<Date> {
    resolve_date_on(wednesday(), s)
}

#[test]
fn named_days_count_from_today() {
    assert_eq!(on("今天"), Some(day(2025, 9, 10)));
    assert_eq!(on("今日"), Some(day(2025, 9, 10)));
    assert_eq!(on("明天"), Some(day(2025, 9, 11)));
    assert_eq!(on("明日"), Some(day(2025, 9, 11)));
    assert_eq!(on("后天"), Some(day(2025, 9, 12)));
    assert_eq!(on("大后天"), Some(day(2025, 9, 13)));
    assert_eq!(on("  明 天， "), Some(day(2025, 9, 11)));
    assert_eq!(resolve_date_on(day(2024, 2, 28), "明天"), Some(day(2024, 2, 29)));
    assert_eq!(resolve_date_on(day(2025, 12, 31), "明天"), Some(day(2026, 1, 1)));
}

#[test]
fn weekdays_fall_in_their_week() {
    assert_eq!(on("周三"), Some(day(2025, 9, 10)));
    assert_eq!(on("周五"), Some(day(2025, 9, 12)));
    assert_eq!(on("周一"), Some(day(2025, 9, 15)));
    assert_eq!(on("星期五"), Some(day(2025, 9, 12)));
    assert_eq!(on("礼拜天"), Some(day(2025, 9, 14)));
    assert_eq!(on("周7"), Some(day(2025, 9, 14)));
    assert_eq!(on("下周三"), Some(day(2025, 9, 17)));
    assert_eq!(on("下下周一"), Some(day(2025, 9, 22)));
    assert_eq!(on("上周日"), Some(day(2025, 9, 7)));
    assert_eq!(on("下星期三"), Some(day(2025, 9, 17)));
    assert_eq!(on("本周一"), Some(day(2025, 9, 8)));
    assert_eq!(on("这周五"), Some(day(2025, 9, 12)));
    assert_eq!(on("本星期二"), Some(day(2025, 9, 9)));
    assert_eq!(on("周八"), None);
    assert_eq!(on("明天下午"), Some(day(2025, 9, 11)));
    assert_eq!(on("周五 下午"), Some(day(2025, 9, 12)));
    assert_eq!(on("下周三晚上"), Some(day(2025, 9, 17)));
    assert_eq!(on("下午"), None);
}

#[test]
fn written_days_are_read() {
    assert_eq!(on("2025-09-08"), Some(day(2025, 9, 8)));
    assert_eq!(on("2025/9/8"), Some(day(2025, 9, 8)));
    assert_eq!(on("09-08"), Some(day(2025, 9, 8)));
    assert_eq!(on("02-28"), Some(day(2025, 2, 28)));
    assert_eq!(on("02-29"), None);
    assert_eq!(resolve_date_on(day(999, 6, 1), "02-28"), Some(day(999, 2, 28)));
    assert_eq!(resolve_date_on(day(5, 6, 1), "12-31"), Some(day(5, 12, 31)));
    assert_eq!(on("2025-02-30"), None);
    assert_eq!(on("2025/2/30"), None);
    assert_eq!(on("0999/12/31"), Some(day(999, 12, 31)));
    assert_eq!(on("9月8日"), Some(day(2026, 9, 8)));
    assert_eq!(on("9月10日"), Some(day(2025, 9, 10)));
    assert_eq!(on("12月1日"), Some(day(2025, 12, 1)));
    assert_eq!(on("12月1"), Some(day(2025, 12, 1)));
    assert_eq!(on("2月30日"), None);
    assert_eq!(on("月日"), None);
    assert_eq!(on(""), None);
    assert_eq!(on("改天"), None);
}

#[test]
fn only_days_that_do_not_exist_are_refused() {
    let last = day(262142, 12, 31);
    assert_eq!(resolve_date_on(last, "今天"), Some(last));
    assert_eq!(resolve_date_on(last, "明天"), None);
    assert_eq!(resolve_date_on(last, "2025-09-08"), Some(day(2025, 9, 8)));
    assert_eq!(date_choice_on(last, "今天"), Ok(0));
    let first = day(-262143, 1, 1);
    assert_eq!(resolve_date_on(first, "后天"), Some(day(-262143, 1, 3)));
    assert_eq!(resolve_date_on(first, "上周一"), None);
}

#[test]
fn estimates_add_up() {
    let (a, b) = ("hello 你好", "世界, again");
    let joined = est_tokens(&format!("{}{}", a, b));
    assert!(est_tokens(a) + est_tokens(b) - 1 <= joined);
    assert!(joined <= est_tokens(a) + est_tokens(b));
    assert_eq!(joined, est_tokens(&format!("{}{}", b, a)));
}

#[test]
fn days_are_resolved_by_the_clock() {
    let now = chrono::Local::now().date_naive();
    let t = today();
    assert_eq!((t.year, t.month, t.day), (now.year(), now.month(), now.day()));
    let tomorrow = now + chrono::Duration::days(1);
    let d = resolve_date("明天").unwrap();
    assert_eq!((d.year, d.month, d.day), (tomorrow.year(), tomorrow.month(), tomorrow.day()));
    assert_eq!(resolve_date("2025-09-08"), Some(day(2025, 9, 8)));
    assert_eq!(resolve_date("2025/9/8"), Some(day(2025, 9, 8)));
    assert_eq!(resolve_date("01-02"), Some(day(now.year(), 1, 2)));
    assert_eq!(date_choice("明天"), Ok(1));
    assert_eq!(date_choice("今天"), Ok(0));
}

#[test]
fn seats_are_for_two_days_only() {
    assert_eq!(date_choice_on(wednesday(), "今天"), Ok(0));
    assert_eq!(date_choice_on(wednesday(), "明天"), Ok(1));
    assert_eq!(date_choice_on(wednesday(), "2025-09-11"), Ok(1));
    assert_eq!(
        date_choice_on(wednesday(), "后天"),
        Err("图书馆座位只支持今天(0)或明天(1)，更远的日期请改天再来查。".to_string())
    );
    assert_eq!(
        date_choice_on(wednesday(), "xyz"),
        Err("无法理解日期「xyz」，请用 今天/明天 或 YYYY-MM-DD。".to_string())
    );
}

#[test]
fn times_are_read() {
    assert_eq!(resolve_hhmm("14:30"), Some((14, 30)));
    assert_eq!(resolve_hhmm("9:5"), Some((9, 5)));
    assert_eq!(resolve_hhmm("12:xx"), Some((12, 0)));
    assert_eq!(resolve_hhmm("25:00"), None);
    assert_eq!(resolve_hhmm("8点"), Some((8, 0)));
    assert_eq!(resolve_hhmm("8点半"), Some((8, 30)));
    assert_eq!(resolve_hhmm("8点15分"), Some((8, 15)));
    assert_eq!(resolve_hhmm("下午2点半"), Some((14, 30)));
    assert_eq!(resolve_hhmm("下午3点"), Some((15, 0)));
    assert_eq!(resolve_hhmm("晚上12点"), Some((12, 0)));
    assert_eq!(resolve_hhmm("上午12点"), Some((0, 0)));
    assert_eq!(resolve_hhmm("下午12点"), Some((12, 0)));
    assert_eq!(resolve_hhmm("晚上11点"), Some((23, 0)));
    assert_eq!(resolve_hhmm("上午0点"), Some((0, 0)));
    assert_eq!(resolve_hhmm("23点59"), Some((23, 59)));
    assert_eq!(resolve_hhmm(" 2，3 点。5 9 "), Some((23, 59)));
    assert_eq!(resolve_hhmm("1 4。: 3，0"), Some((14, 30)));
    assert_eq!(resolve_hhmm("8点75"), None);
    assert_eq!(resolve_hhmm("半夜"), None);
}

#[test]
fn moments_are_told() {
    let m = Moment { date: wednesday(), hour: 8, minute: 5 };
    assert_eq!(moment_line(m), "2025-09-10（周三）08:05");
    assert_eq!(cn_weekday(Weekday::Sun), "周日");
    let now = chrono::Local::now();
    let line = now_line();
    assert!(line.starts_with(&now.format("%Y-%m-%d（周").to_string()));
    assert!(line.chars().count() == 10 + 4 + 5);
}

fn figures(context: Option<u64>, steps: Option<u64>) -> Figures {
    Figures {
        context,
        steps,
        price_in: Num::Float("0.27".to_string()),
        price_out: Num::Float("1.1".to_string()),
        budget_usd: Num::Pos(2),
    }
}

fn settings(pairs: &[(&str, &str)]) -> Json {
    let mut r = Rec::new();
    for (k, v) in pairs {
        r = r.text(k, v);
    }
    r.done()
}

#[test]
fn settings_have_defaults() {
    let c = Config::from_settings(&settings(&[]), figures(None, None));
    assert_eq!(c.api_key, "");
    assert_eq!(c.base_url, "https://api.deepseek.com/v1");
    assert_eq!(c.model, "deepseek-chat");
    assert!(!c.thinking);
    assert!(c.stream);
    assert_eq!(c.max_context, 24000);
    assert_eq!(c.max_steps, 16);
    assert!(matches!(c.budget_usd, Num::Pos(2)));
    assert_eq!(setting(&settings(&[("a", " x ")]), "a"), "x");
}

#[test]
fn settings_are_read() {
    let c = Config::from_settings(
        &settings(&[
            ("apiKey", " SECRET-REDACTED "),
            ("baseUrl", "http://localhost:1/v1//"),
            ("thinking", "ON"),
            ("stream", "Off"),
            ("model", "deepseek-chat"),
        ]),
        figures(Some(10), Some(900)),
    );
    assert_eq!(c.api_key, "SECRET-REDACTED");
    assert_eq!(c.base_url, "http://localhost:1/v1");
    assert!(c.thinking);
    assert!(!c.stream);
    assert_eq!(c.model, "deepseek-reasoner");
    assert_eq!(c.max_context, 4000);
    assert_eq!(c.max_steps, 64);
    let c = Config::from_settings(
        &settings(&[("model", "deepseek-reasoner"), ("thinking", "no")]),
        figures(Some(5000), Some(1)),
    );
    assert_eq!(c.model, "deepseek-chat");
    assert_eq!(c.max_context, 5000);
    assert_eq!(c.max_steps, 2);
    let c = Config::from_settings(&settings(&[("model", "other"), ("thinking", "开")]), figures(None, None));
    assert_eq!(c.model, "other");
}
