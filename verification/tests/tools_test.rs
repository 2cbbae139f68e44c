use onethu_harness::date::Date;
use onethu_harness::host::{line_of, route_line, Host, Routed};
use onethu_harness::json::{Json, Num};
use onethu_harness::tools::{all_tools, execute, execute_on, is_confirm, schema, ToolOut};

fn read(text: &str) -> Json {
    let line = format!("{{\"id\":1,\"result\":{}}}", text);
    match route_line(&line) {
        Routed::Answer { reply: Ok(v), .. } => v,
        _ => panic!("not JSON: {}", text),
    }
}

fn show(v: &Json) -> String {
    line_of(v).trim_end().to_string()
}

fn sorted(text: &str) -> String {
    let v: serde_json::Value = serde_json::from_str(text).unwrap();
    v.to_string()
}

/// A host that answers from a list, in order, and notes what it is asked.
struct Fake {
    answers: Vec<Result<&'static str, &'static str>>,
    asked: Vec<String>,
}

impl Host for Fake {
    fn call(&mut self, ns: &str, method: &str, args: Json) -> Result<Json, String> {
        self.asked.push(format!("{}.{}{}", ns, method, show(&args)));
        if self.answers.is_empty() {
            return Err("unexpected call".to_string());
        }
        match self.answers.remove(0) {
            Ok(t) => Ok(read(t)),
            Err(e) => Err(e.to_string()),
        }
    }

    fn interrupted(&self) -> bool {
        false
    }

    fn pause(&mut self, ms: u64) {
        self.asked.push(format!("pause {}", ms));
    }

    fn total(&mut self, amounts: &Vec<Num>) -> Json {
        self.asked.push(format!("total {}", amounts.len()));
        let mut sum: f64 = 0.0;
        for a in amounts {
            sum += match a {
                Num::Pos(n) => *n as f64,
                Num::Neg(n) => *n as f64,
                Num::Float(t) => t.parse().unwrap(),
            };
        }
        Json::Num(Num::Float(format!("{:?}", sum)))
    }
}

fn wednesday() -> Date {
    Date { year: 2025, month: 9, day: 10 }
}

fn run(
    name: &str,
    args: &str,
    confirmed: bool,
    answers: &[Result<&'static str, &'static str>],
) -> (Result<ToolOut, String>, Vec<String>) {
    let mut h = Fake { answers: answers.to_vec(), asked: Vec::new() };
    let r = execute_on(&mut h, wednesday(), name, &read(args), confirmed);
    (r, h.asked)
}

fn says(r: Result<ToolOut, String>, expected: &str) {
    match r {
        Ok(ToolOut::Text(t)) => assert_eq!(t, sorted(expected)),
        other => panic!("{:?}", other),
    }
}

fn fails(r: Result<ToolOut, String>, expected: &str) {
    match r {
        Err(e) => assert_eq!(e, expected),
        other => panic!("{:?}", other),
    }
}

#[test]
fn tools_are_described() {
    let all = all_tools();
    assert_eq!(all.len(), 25);
    assert_eq!(all[0].name, "query_profile");
    assert_eq!(all[24].name, "notify");
    for t in &all {
        assert_eq!(is_confirm(t.name), t.confirm);
    }
    assert!(is_confirm("book_libroom"));
    assert!(!is_confirm("query_news"));
    assert!(!is_confirm("none"));
    let s = schema();
    assert_eq!(s.len(), 25);
    assert_eq!(
        show(&s[12]),
        sorted(
            r#"{"type":"function","function":{"name":"read_news_article","description":"读一篇新闻的正文（需要 query_news 返回的 xxid）","parameters":{"type":"object","properties":{"news_id":{"type":"string"}},"required":["news_id"]}}}"#
        )
    );
    assert_eq!(
        show(&all[20].params),
        sorted(
            r#"{"type":"object","properties":{"date":{"type":"string"},"roomIdx":{"type":"integer","minimum":0},"start":{"type":"string","description":"如 14:00 / 下午2点"},"end":{"type":"string"},"members":{"type":"array","items":{"type":"string"},"description":"同伴姓名/学号关键词"}},"required":["date","roomIdx","start","end"]}"#
        )
    );
}

#[test]
fn profile_takes_three_calls() {
    let (r, asked) = run(
        "query_profile",
        "{}",
        false,
        &[Ok("\"ok\""), Ok("\"u\""), Ok(r#"{"name":"张三","major":"CS"}"#)],
    );
    assert_eq!(asked, vec!["session.status[]", "session.username[]", "user.info[]"]);
    says(
        r,
        r#"{"sessionStatus":"ok","username":"u","name":"张三","studentId":"","department":"","major":"CS","email":""}"#,
    );
}

#[test]
fn errors_of_the_host_are_told() {
    let (r, asked) = run("query_profile", "{}", false, &[Err("会话未能建立：x")]);
    assert_eq!(asked.len(), 1);
    fails(r, "登录会话已失效：请打开 OneTHU 重新登录后再试。");
    let (r, _) = run("query_exams", "{}", false, &[Err("card 未获授权")]);
    fails(r, "card 未获授权（请在插件管理页重装/检查权限）");
    let (r, _) = run("query_exams", "{}", false, &[Err("other")]);
    fails(r, "other");
    let (r, asked) = run("nothing", "{}", true, &[]);
    assert!(asked.is_empty());
    fails(r, "未知工具：nothing");
}

#[test]
fn timetables_default_to_a_week() {
    let (r, asked) = run("query_schedule", "{}", false, &[Ok("[]")]);
    assert_eq!(asked, vec![r#"info.schedule["2025-09-10","2025-09-16"]"#]);
    says(r, "[]");
    let (_, asked) =
        run("query_schedule", r#"{"start":"明天","end":"下周三"}"#, false, &[Ok("[]")]);
    assert_eq!(asked, vec![r#"info.schedule["2025-09-11","2025-09-17"]"#]);
    let (r, _) = run("query_schedule", r#"{"start":"?"}"#, false, &[]);
    fails(r, "无法理解 start 日期");
    let (r, _) = run("query_schedule", r#"{"end":"?"}"#, false, &[]);
    fails(r, "无法理解 end 日期");
}

#[test]
fn plain_lookups_hand_the_answer_on() {
    let cases = [
        ("query_exams", "info.exams[]"),
        ("query_deadlines", "info.deadlines[]"),
        ("query_grades", "info.report[]"),
        ("query_calendar", "info.schoolCalendar[]"),
        ("my_library_bookings", "library.records[]"),
        ("my_libroom_bookings", "libroom.records[]"),
    ];
    for (name, call) in cases {
        let (r, asked) = run(name, "{}", false, &[Ok("[1]")]);
        assert_eq!(asked, vec![call]);
        says(r, "[1]");
    }
}

#[test]
fn cards_are_looked_up() {
    let (r, _) =
        run("query_card_balance", "{}", false, &[Ok(r#"{"userName":"a","balance":12.5}"#)]);
    says(r, r#"{"userName":"a","balance":12.5,"cardStatus":""}"#);
    let (r, asked) = run(
        "query_card_transactions",
        "{}",
        false,
        &[Ok(r#"[{"summary":"饭","timestamp":"t","amount":-1.5,"balance":3},{"amount":"x"},{"amount":2}]"#)],
    );
    assert_eq!(asked, vec![r#"card.transactions["2025-09-04","2025-09-10"]"#, "total 2"]);
    says(
        r,
        r#"{"count":3,"netAmount":0.5,"note":"amount 正负为收支方向","rows":[{"summary":"饭","time":"t","amount":-1.5,"balance":3},{"summary":"","time":"","amount":"x","balance":null},{"summary":"","time":"","amount":2,"balance":null}],"truncated":false}"#,
    );
    let (r, _) = run("query_card_transactions", r#"{"end":"?"}"#, false, &[]);
    fails(r, "无法理解 end 日期");
    let (r, _) = run("query_card_transactions", r#"{"start":"?"}"#, false, &[]);
    fails(r, "无法理解 start 日期");
}

#[test]
fn payments_and_network_are_looked_up() {
    let (r, asked) = run(
        "query_dorm_ele_records",
        "{}",
        false,
        &[Ok(r#"[{"time":"t","value":"9","channel":"c","status":"s"}]"#)],
    );
    assert_eq!(asked, vec!["dorm.elePayRecord[]"]);
    says(
        r,
        r#"{"count":1,"rows":[{"time":"t","amount":"9","channel":"c","status":"s"}],"truncated":false}"#,
    );
    let (r, asked) =
        run("query_network", "{}", false, &[Ok(r#"{"productName":"p","usedBytes":7}"#), Ok("2")]);
    assert_eq!(asked, vec!["network.balance[]", "network.deviceCount[]"]);
    says(r, r#"{"productName":"p","usedBytes":7,"accountBalance":null,"onlineDevices":2}"#);
}

#[test]
fn long_lists_are_cut() {
    let many = format!("[{}]", vec!["{}"; 95].join(","));
    let many: &'static str = Box::leak(many.into_boxed_str());
    let (r, _) = run("query_card_transactions", "{}", false, &[Ok(many)]);
    match r {
        Ok(ToolOut::Text(t)) => {
            let v: serde_json::Value = serde_json::from_str(&t).unwrap();
            assert_eq!(v["count"], 95);
            assert_eq!(v["rows"].as_array().unwrap().len(), 90);
            assert_eq!(v["truncated"], true);
        }
        other => panic!("{:?}", other),
    }
}

#[test]
fn news_are_looked_up() {
    let (r, asked) = run(
        "query_news",
        r#"{"keyword":"考试","page":2}"#,
        false,
        &[Ok(r#"[{"xxid":"1","name":"n","date":"d","source":"s","url":"u"}]"#)],
    );
    assert_eq!(asked, vec![r#"info.searchNews["考试",2]"#]);
    says(
        r,
        r#"{"rows":[{"xxid":"1","name":"n","date":"d","source":"s","url":"u"}],"note":"每条新闻务必把 url 一并给用户（可点开原文），不要只报标题"}"#,
    );
    let (_, asked) = run("query_news", "{}", false, &[Ok("[]")]);
    assert_eq!(asked, vec!["info.news[1]"]);
    let (r, asked) = run("query_subscribed_news", r#"{"page":3}"#, false, &[Ok("null")]);
    assert_eq!(asked, vec!["info.newsSub[3]"]);
    says(r, r#"{"rows":[],"note":"每条新闻务必把 url 一并给用户（可点开原文）"}"#);
    let (r, asked) = run("read_news_article", r#"{"news_id":"9"}"#, false, &[Ok("\"正文\"")]);
    assert_eq!(asked, vec![r#"info.newsDetail["9"]"#]);
    says(r, r#"{"text":"正文"}"#);
    let long: &'static str = Box::leak(format!("\"{}\"", "字".repeat(3001)).into_boxed_str());
    let (r, _) = run("read_news_article", "{}", false, &[Ok(long)]);
    let cut = format!("{{\"text\":\"{}…（正文过长已截断）\"}}", "字".repeat(3000));
    says(r, &cut);
}

#[test]
fn classrooms_are_told_by_day() {
    let mut states = vec!["5"; 42];
    states[0] = "0";
    states[7] = "1";
    states[8] = "null";
    let st: &'static str = Box::leak(
        format!(
            "{{\"classroomStates\":[{{\"name\":\"6A101\",\"capacity\":80,\"status\":[{}]}},{{}}]}}",
            states.join(",")
        )
        .into_boxed_str(),
    );
    let (r, asked) = run(
        "query_empty_classrooms",
        r#"{"building":"六教"}"#,
        false,
        &[Ok(r#"[{"name":"一教"},{"name":"第六教学楼","searchName":"六教","weekNumber":3}]"#), Ok(st)],
    );
    assert_eq!(asked, vec!["info.classroomList[]", r#"info.classroomState["第六教学楼",3]"#]);
    let note = "busyByDay=被占用的大节（每格≈两大节）；未列出的天/节次均空闲";
    says(
        r,
        &format!(
            r#"{{"building":"第六教学楼","week":3,"rooms":[{{"room":"6A101","capacity":80,"busyByDay":[{{"day":"周一","busyPeriods":[1]}},{{"day":"周二","busyPeriods":[2,3]}}],"freeNote":"{note}"}},{{"room":"教室1","capacity":0,"busyByDay":[],"freeNote":"{note}"}}]}}"#
        ),
    );
    let (r, _) = run(
        "query_empty_classrooms",
        r#"{"building":"九教"}"#,
        false,
        &[Ok(r#"[{"name":"一教"},{"name":"二教"}]"#)],
    );
    fails(r, "找不到楼栋「九教」，可用：一教、二教");
}

#[test]
fn library_survey_outlives_a_failure() {
    let (r, asked) = run(
        "query_library",
        r#"{"date":"明天"}"#,
        false,
        &[
            Ok(r#"[{"id":3,"zhName":"逸夫馆"},{"id":4,"zhName":"文科馆"}]"#),
            Err("坏了"),
            Ok(r#"[{"zhName":"一层","available":5,"total":9}]"#),
        ],
    );
    assert_eq!(asked, vec!["library.list[]", "library.floors[3,1]", "library.floors[4,1]"]);
    says(
        r,
        r#"{"dateChoice":1,"libraries":[{"libIdx":0,"name":"逸夫馆","error":"坏了"},{"libIdx":1,"id":4,"name":"文科馆","floors":[{"floorIdx":0,"name":"一层","available":5,"total":9}]}]}"#,
    );
    let (r, asked) = run("query_library", r#"{"date":"后天"}"#, false, &[]);
    assert!(asked.is_empty());
    fails(r, "图书馆座位只支持今天(0)或明天(1)，更远的日期请改天再来查。");
}

#[test]
fn free_seats_are_listed() {
    let (r, asked) = run(
        "query_library_seats",
        r#"{"libIdx":0,"floorIdx":1}"#,
        false,
        &[
            Ok(r#"[{"id":3,"zhName":"L"}]"#),
            Ok(r#"[{},{"id":8,"zhName":"F"}]"#),
            Ok(r#"[{"id":5,"zhName":"S"}]"#),
            Ok(r#"[{"availability":"busy"},{"availability":"usable","zhName":"A2","type":"t","hasPower":true},{"valid":false},{"zhName":"A4"}]"#),
        ],
    );
    assert_eq!(
        asked,
        vec![
            "library.list[]",
            "library.floors[3,0]",
            r#"library.sections[{"id":8,"zhName":"F"},0]"#,
            r#"library.seats[{"id":5,"zhName":"S"},0]"#
        ]
    );
    says(
        r,
        r#"{"library":"L","floor":"F","dateChoice":0,"sections":[{"sectionIdx":0,"name":"S","available":2,"total":4,"freePreview":[{"seatIdx":1,"zhName":"A2","type":"t","hasPower":true},{"seatIdx":3,"zhName":"A4","type":"","hasPower":null}],"previewNote":"freePreview 为空位示意（seatIdx 是全区域座位数组的真实下标，可直接用于订座）"}]}"#,
    );
    let (r, _) = run("query_library_seats", r#"{"libIdx":-1}"#, false, &[Ok("[{}]")]);
    fails(r, "libIdx 越界，请先 query_library");
    let (r, _) = run("query_library_seats", "{}", false, &[Ok("[{}]"), Ok("[]")]);
    fails(r, "floorIdx 越界，请先 query_library");
}

const SEAT: &str = r#"{"libIdx":0,"floorIdx":0,"sectionIdx":0,"seatIdx":1,"date":"明天"}"#;

fn seat_answers() -> Vec<Result<&'static str, &'static str>> {
    vec![
        Ok(r#"[{"id":3,"zhName":"逸夫馆"}]"#),
        Ok(r#"[{"zhName":"一层"}]"#),
        Ok(r#"[{"id":5,"zhName":"A区"}]"#),
        Ok(r#"[{},{"id":77,"zhName":"A2"}]"#),
    ]
}

#[test]
fn a_seat_is_booked_in_two_steps() {
    let (r, asked) = run("book_library_seat", SEAT, false, &seat_answers());
    assert_eq!(asked.len(), 4);
    assert!(asked.iter().all(|c| !c.starts_with("library.book")));
    match r {
        Ok(ToolOut::ConfirmNeeded { tool, args, summary }) => {
            assert_eq!(tool, "book_library_seat");
            assert_eq!(show(&args), sorted(SEAT));
            assert_eq!(summary, "预约图书馆座位：逸夫馆一层 A区 A2（明天，座位类型 普通）");
        }
        other => panic!("{:?}", other),
    }
    let mut answers = seat_answers();
    answers.push(Ok(r#"{"status":1,"data":{"starttime":"08:00"}}"#));
    let (r, asked) = run("book_library_seat", SEAT, true, &answers);
    assert_eq!(asked[4], r#"library.book[{"id":77,"zhName":"A2"},5,1]"#);
    says(
        r,
        r#"{"success":true,"seat":"A2","section":"A区","time":"今天 08:00","status":"预约成功","hint":"已同步到预约记录；可用 my_library_bookings 复核"}"#,
    );
    let mut answers = seat_answers();
    answers.push(Ok(r#"{"status":0,"msg":"已满"}"#));
    let (r, _) = run("book_library_seat", SEAT, true, &answers);
    fails(r, "预约未成功：已满");
    let mut answers = seat_answers();
    answers.push(Ok(r#"{"status":1,"data":{"starttime":"08:00"}}"#));
    let (r, _) = run("book_library_seat", r#"{"seatIdx":1}"#, true, &answers);
    says(
        r,
        r#"{"success":true,"seat":"A2","section":"A区","time":"今天 08:00","status":"预约成功","hint":"已同步到预约记录；可用 my_library_bookings 复核"}"#,
    );
    let mut answers = seat_answers();
    answers.push(Ok(r#"{"status":2}"#));
    let (r, _) = run("book_library_seat", SEAT, true, &answers);
    fails(r, r#"预约未成功：{"status":2}"#);
    let mut answers = seat_answers();
    answers.push(Ok(r#"{"msg":"预约成功","data":{"statusName":"已约"}}"#));
    let (r, _) = run("book_library_seat", SEAT, true, &answers);
    says(
        r,
        r#"{"success":true,"seat":"A2","section":"A区","time":"今天","status":"已约","hint":"已同步到预约记录；可用 my_library_bookings 复核"}"#,
    );
}

#[test]
fn a_seat_that_is_not_there_is_refused() {
    let a = seat_answers();
    let (r, _) = run("book_library_seat", r#"{"libIdx":1}"#, true, &a);
    fails(r, "libIdx 越界");
    let (r, _) = run("book_library_seat", r#"{"floorIdx":1}"#, true, &a);
    fails(r, "floorIdx 越界");
    let (r, _) = run("book_library_seat", r#"{"sectionIdx":1}"#, true, &a);
    fails(r, "sectionIdx 越界");
    let (r, _) = run("book_library_seat", r#"{"seatIdx":2}"#, true, &a);
    fails(r, "seatIdx 越界");
    let (r, asked) = run("book_library_seat", r#"{"date":"?"}"#, true, &a);
    assert_eq!(asked.len(), 1);
    fails(r, "无法理解日期「?」，请用 今天/明天 或 YYYY-MM-DD。");
}

#[test]
fn a_seat_is_cancelled_in_two_steps() {
    let recs = r#"[{"pos":"A2","time":"8点","status":"已约","delId":42,"id":"9"}]"#;
    let (r, asked) = run("cancel_library_booking", "{}", false, &[Ok(recs)]);
    assert_eq!(asked, vec!["library.records[]"]);
    match r {
        Ok(ToolOut::ConfirmNeeded { summary, .. }) => {
            assert_eq!(summary, "取消图书馆座位预约：A2 @ 8点（已约）")
        }
        other => panic!("{:?}", other),
    }
    let (r, _) = run("cancel_library_booking", r#"{"bookingIdx":1}"#, false, &[Ok(recs)]);
    fails(r, "预约记录序号不存在，请先 my_library_bookings 查询");
    let (r, asked) = run("cancel_library_booking", "{}", true, &[Ok(recs), Ok("null")]);
    assert_eq!(asked[1], r#"library.cancel["42"]"#);
    says(r, r#"{"success":true,"cancelled":"A2","hint":"可用 my_library_bookings 复核"}"#);
    let (_, asked) =
        run("cancel_library_booking", "{}", true, &[Ok(r#"[{"delId":"","id":"9"}]"#), Ok("null")]);
    assert_eq!(asked[1], r#"library.cancel["9"]"#);
    let (_, asked) =
        run("cancel_library_booking", "{}", true, &[Ok(r#"[{"delId":"x","id":"9"}]"#), Ok("null")]);
    assert_eq!(asked[1], r#"library.cancel["x"]"#);
    let (r, _) = run("cancel_library_booking", "{}", true, &[Ok(recs), Err("已达次数")]);
    fails(
        r,
        "今日取消次数已达上限（座位系统限制每个图书馆每自然日取消 1 次）。A2 的预约仍在生效，明天 0 点后可再取消，或到图书馆座位系统「我的中心」手动处理。",
    );
    let (r, _) = run("cancel_library_booking", "{}", true, &[Ok(recs), Err("坏了")]);
    fails(r, "坏了");
    let (r, _) = run("cancel_library_booking", r#"{"bookingIdx":5}"#, true, &[Ok(recs)]);
    fails(r, "bookingIdx 越界");
}

const KINDS: &str = r#"[{"kindId":1,"kindName":"音乐室"},{"kindId":2,"kindName":"研讨间A"},{"kindId":3,"kindName":"研讨间B"}]"#;

#[test]
fn rooms_are_looked_up_slowly() {
    let (r, asked) = run("query_librooms", r#"{"date":"明天"}"#, false, &[Ok(KINDS)]);
    assert_eq!(asked, vec!["libroom.list[]"]);
    says(
        r,
        r#"{"kinds":[{"kindIdx":0,"kindId":1,"kindName":"音乐室"},{"kindIdx":1,"kindId":2,"kindName":"研讨间A"},{"kindIdx":2,"kindId":3,"kindName":"研讨间B"}],"note":"以上是全部类型目录；查某类型的房间与占用请带 kind 参数重查（如 kind=研讨间）"}"#,
    );
    let (r, asked) = run(
        "query_librooms",
        r#"{"date":"明天","kind":"研讨间"}"#,
        false,
        &[Ok(KINDS), Err("系统繁忙"), Ok("[1]"), Ok("[2]")],
    );
    assert_eq!(
        asked,
        vec![
            "libroom.list[]",
            r#"libroom.resources["2025-09-11",2]"#,
            "pause 1500",
            r#"libroom.resources["2025-09-11",2]"#,
            "pause 600",
            r#"libroom.resources["2025-09-11",3]"#
        ]
    );
    says(
        r,
        r#"{"kinds":[{"kindIdx":1,"kindId":2,"kindName":"研讨间A","date":"2025-09-11","rooms":[1]},{"kindIdx":2,"kindId":3,"kindName":"研讨间B","date":"2025-09-11","rooms":[2]}]}"#,
    );
    let (r, _) = run("query_librooms", r#"{"date":"明天","kind":"泳池"}"#, false, &[Ok(KINDS)]);
    fails(r, "找不到类型「泳池」，可用：音乐室、研讨间A、研讨间B");
    let (r, _) = run("query_librooms", "{}", false, &[]);
    fails(r, "无法理解日期「」");
    let (r, _) = run(
        "query_librooms",
        r#"{"date":"明天","kind":"音乐"}"#,
        false,
        &[Ok(KINDS), Err("x"), Err("y")],
    );
    fails(r, "y");
}

const ROOM: &str = r#"{"date":"明天","kindIdx":1,"roomIdx":0,"start":"14:00","end":"下午4点","members":["张三",""," 李四 "]}"#;

#[test]
fn a_room_is_booked_in_two_steps() {
    let room = r#"[{"roomName":"","devName":"R1","maxMinute":240,"limit":5}]"#;
    let (r, asked) = run("book_libroom", ROOM, false, &[Ok(KINDS), Ok(room)]);
    assert_eq!(asked, vec!["libroom.list[]", r#"libroom.resources["2025-09-11",2]"#]);
    match r {
        Ok(ToolOut::ConfirmNeeded { summary, .. }) => assert_eq!(
            summary,
            "预约研讨间：R1（2025-09-11 14:00-下午4点，成员 3 人，不含本人）"
        ),
        other => panic!("{:?}", other),
    }
    let (r, asked) = run(
        "book_libroom",
        ROOM,
        true,
        &[
            Ok(KINDS),
            Ok(room),
            Ok(r#"[{"label":"王五","id":1},{"label":"张三(x)","id":" 7 "}]"#),
            Ok(r#"[{"label":"?","id":8}]"#),
            Ok("null"),
        ],
    );
    assert_eq!(asked[2], r#"libroom.fuzzyMember["张三"]"#);
    assert_eq!(asked[3], r#"libroom.fuzzyMember["李四"]"#);
    assert_eq!(
        asked[4],
        r#"libroom.book[{"devName":"R1","limit":5,"maxMinute":240,"roomName":""},"2025-09-11 14:00","2025-09-11 16:00",[7,8]]"#
    );
    says(r, r#"{"success":true,"room":"R1","time":"2025-09-11 14:00 ~ 2025-09-11 16:00"}"#);
}

#[test]
fn a_room_of_a_kind_that_is_only_named_is_looked_for() {
    let args = r#"{"date":"明天","kind":"研讨","roomIdx":0,"start":"8点","end":"9点"}"#;
    let (r, asked) = run(
        "book_libroom",
        args,
        true,
        &[Ok(KINDS), Ok(KINDS), Ok(r#"[{"roomName":"N"}]"#), Ok("null")],
    );
    assert_eq!(asked[2], r#"libroom.resources["2025-09-11",2]"#);
    assert_eq!(asked[3], r#"libroom.book[{"roomName":"N"},"2025-09-11 08:00","2025-09-11 09:00",[]]"#);
    says(r, r#"{"success":true,"room":"N","time":"2025-09-11 08:00 ~ 2025-09-11 09:00"}"#);
    let (r, asked) = run(
        "book_libroom",
        args,
        false,
        &[Ok(KINDS), Ok(KINDS), Ok(r#"[{"roomName":"N"}]"#)],
    );
    assert_eq!(asked[2], r#"libroom.resources["2025-09-11",2]"#);
    match r {
        Ok(ToolOut::ConfirmNeeded { summary, .. }) => assert_eq!(
            summary,
            "预约研讨间：N（2025-09-11 8点-9点，成员 0 人，不含本人）"
        ),
        other => panic!("{:?}", other),
    }
    let (r, _) = run("book_libroom", r#"{"kind":"泳池"}"#, false, &[Ok(KINDS)]);
    fails(r, "找不到房间类型");
    let (r, _) = run("book_libroom", r#"{"kind":"泳池"}"#, true, &[Ok(KINDS)]);
    fails(r, "找不到房间类型");
}

#[test]
fn a_room_is_refused_for_its_rules() {
    let room = Ok(r#"[{"maxMinute":60,"limit":1}]"#);
    let ask = |more: &str| format!(r#"{{"date":"明天","kindIdx":0,{}}}"#, more);
    let go = |more: &str, extra: &[Result<&'static str, &'static str>]| {
        let mut answers = vec![Ok(KINDS), room];
        answers.extend_from_slice(extra);
        run("book_libroom", &ask(more), true, &answers).0
    };
    fails(go(r#""start":"?","end":"9点""#, &[]), "无法理解开始时间");
    fails(go(r#""start":"8点","end":"?""#, &[]), "无法理解结束时间");
    fails(go(r#""start":"9点","end":"8点""#, &[]), "结束时间需晚于开始时间");
    fails(go(r#""start":"8点","end":"10点""#, &[]), "时长 120 分钟超过该资源上限 60 分钟");
    fails(
        go(r#""start":"8点","end":"9点","members":["a","b"]"#, &[]),
        "成员 2 人超过上限 1（发起人另计，按 UI 语义）",
    );
    fails(go(r#""start":"8点","end":"9点","members":["a"]"#, &[Ok("[]")]), "搜不到成员「a」");
    fails(
        go(r#""start":"8点","end":"9点","members":["a"]"#, &[Ok(r#"[{"id":"x"}]"#)]),
        r#"成员 accNo 解析失败：{"id":"x"}"#,
    );
    let (r, _) = run("book_libroom", &ask(r#""roomIdx":4"#), true, &[Ok(KINDS), room]);
    fails(r, "roomIdx 越界（请重新 query_librooms）");
    let (r, _) = run("book_libroom", r#"{"date":"明天","kindIdx":9}"#, true, &[Ok(KINDS)]);
    fails(r, "kindIdx 越界（请重新 query_librooms）");
}

#[test]
fn a_room_is_cancelled_in_two_steps() {
    let recs = r#"[{"devName":"R1","date":"d","begin":"b","end":"e","uuid":"U"}]"#;
    let (r, _) = run("cancel_libroom_booking", "{}", false, &[Ok(recs)]);
    match r {
        Ok(ToolOut::ConfirmNeeded { summary, .. }) => assert_eq!(summary, "取消研讨间预约：R1 d b-e"),
        other => panic!("{:?}", other),
    }
    let (r, _) = run("cancel_libroom_booking", r#"{"recordIdx":3}"#, false, &[Ok(recs)]);
    fails(r, "记录序号不存在，请先 my_libroom_bookings 查询");
    let (r, asked) = run("cancel_libroom_booking", "{}", true, &[Ok(recs), Ok("null")]);
    assert_eq!(asked[1], r#"libroom.cancel["U"]"#);
    says(r, r#"{"success":true}"#);
    let (r, _) = run("cancel_libroom_booking", r#"{"recordIdx":3}"#, true, &[Ok(recs)]);
    fails(r, "recordIdx 越界");
}

#[test]
fn the_application_is_steered() {
    let (r, asked) =
        run("navigate", r#"{"page":"life","params":{"lifeTab":"card"}}"#, false, &[Ok("true")]);
    assert_eq!(asked, vec![r#"nav.go["life",{"lifeTab":"card"}]"#]);
    says(r, r#"{"navigated":true}"#);
    let (_, asked) = run("navigate", r#"{"page":"life"}"#, false, &[Ok("true")]);
    assert_eq!(asked, vec![r#"nav.go["life",{}]"#]);
    let (r, asked) = run("notify", r#"{"text":"hi"}"#, false, &[Ok("null")]);
    assert_eq!(asked, vec![r#"ui.toast["hi"]"#]);
    says(r, r#"{"sent":true}"#);
}

#[test]
fn tools_run_today() {
    let mut h = Fake { answers: vec![Ok("[]")], asked: Vec::new() };
    let r = execute(&mut h, "query_schedule", &read("{}"), false);
    assert!(matches!(r, Ok(ToolOut::Text(t)) if t == "[]"));
    let now = chrono::Local::now().date_naive();
    let end = now + chrono::Duration::days(6);
    assert_eq!(h.asked, vec![format!("info.schedule[\"{}\",\"{}\"]", now, end)]);
    let mut h = Fake { answers: vec![], asked: Vec::new() };
    let r = execute(&mut h, "query_schedule", &read(r#"{"start":"+262142-12-30"}"#), false);
    assert_eq!(r.unwrap_err(), "无法理解 end 日期");
    assert!(h.asked.is_empty());
}

#[test]
fn days_at_the_ends_of_the_calendar_are_looked_up() {
    let last = Date { year: 262142, month: 12, day: 31 };
    let mut h = Fake { answers: vec![Ok("[]")], asked: Vec::new() };
    let r = execute_on(&mut h, last, "query_exams", &read("{}"), false);
    says(r, "[]");
    let r = execute_on(&mut h, last, "query_schedule", &read("{}"), false);
    fails(r, "无法理解 end 日期");
    let first = Date { year: -262143, month: 1, day: 1 };
    let r = execute_on(&mut h, first, "query_card_transactions", &read("{}"), false);
    fails(r, "无法理解 start 日期");
}

#[test]
fn every_offered_tool_is_known_by_a_name_of_its_own() {
    let mut names: Vec<&str> = all_tools().iter().map(|t| t.name).collect();
    let count = names.len();
    for t in all_tools() {
        let (r, _) = run(t.name, "{}", true, &[]);
        if let Err(e) = r {
            assert!(!e.starts_with("未知工具"), "{}", e);
        }
    }
    names.sort();
    names.dedup();
    assert_eq!(names.len(), count);
    let (r, asked) = run("top_up", "{}", true, &[]);
    assert!(asked.is_empty());
    fails(r, "未知工具：top_up");
}
