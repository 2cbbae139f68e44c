//! The tool that looks for empty classrooms.

use crate::host::Host;
use crate::json;
use crate::json::{Arr, Json, Rec};
use crate::text;
use crate::tools::plan;
use vstd::prelude::*;

verus! {

/// A building goes by a word that its name or its search name holds.
pub open spec fn is_called(c: json::Tree, word: Seq<char>) -> bool {
    text::occurs(json::text_at(c, "name"@), word) || text::occurs(
        json::text_at(c, "searchName"@),
        word,
    )
}

/// The first building at or after `i` that goes by the word; the length where none does.
pub open spec fn called_from(list: Seq<json::Tree>, word: Seq<char>, i: int) -> int
    decreases list.len() - i,
{
    if i < list.len() && !is_called(list[i], word) {
        called_from(list, word, i + 1)
    } else {
        i
    }
}

pub open spec fn no_building(word: Seq<char>, list: Seq<json::Tree>) -> Seq<char> {
    "找不到楼栋「"@ + word + "」，可用："@ + text::joined(plan::names(list, "name"@), "、"@)
}

/// A period is taken unless its state is 5.
pub open spec fn is_busy(state: json::Tree) -> bool {
    json::i64_of(Some(state)) != Some(5i64)
}

/// The periods of a day that are taken, counted from 1. A day has six, one after
/// another, and the days follow each other from Monday.
pub open spec fn busy_periods(states: Seq<json::Tree>, day: int) -> Seq<json::Tree>
    decreases states.len(),
{
    if states.len() == 0 {
        Seq::empty()
    } else {
        let before = busy_periods(states.drop_last(), day);
        let p = states.len() - 1;
        if is_busy(states.last()) && p / 6 == day {
            before.push(json::Tree::Pos((p % 6 + 1) as u64))
        } else {
            before
        }
    }
}

pub open spec fn day_name(day: int) -> Seq<char> {
    if day == 0 {
        "周一"@
    } else if day == 1 {
        "周二"@
    } else if day == 2 {
        "周三"@
    } else if day == 3 {
        "周四"@
    } else if day == 4 {
        "周五"@
    } else if day == 5 {
        "周六"@
    } else {
        "周日"@
    }
}

/// The days among the first `n` on which some period is taken.
pub open spec fn busy_days(states: Seq<json::Tree>, n: int) -> Seq<json::Tree>
    decreases n,
{
    if n <= 0 {
        Seq::empty()
    } else {
        let before = busy_days(states, n - 1);
        let periods = busy_periods(states, n - 1);
        if periods.len() > 0 {
            before.push(
                json::Tree::Obj(
                    json::no_fields().push(("day"@, json::Tree::Str(day_name(n - 1)))).push(
                        ("busyPeriods"@, json::Tree::Arr(periods)),
                    ),
                ),
            )
        } else {
            before
        }
    }
}

pub open spec fn room_name(i: int, r: json::Tree) -> Seq<char> {
    let name = json::text_at(r, "name"@);
    if name.len() == 0 {
        "教室"@ + text::decimal(i as nat)
    } else {
        name
    }
}

/// What is told of a room.
pub open spec fn room_row() -> spec_fn(int, json::Tree) -> json::Tree {
    |i: int, r: json::Tree|
        json::Tree::Obj(
            json::no_fields().push(("room"@, json::Tree::Str(room_name(i, r)))).push(
                ("capacity"@, json::int_tree(json::int_at(r, "capacity"@) as int)),
            ).push(
                (
                    "busyByDay"@,
                    json::Tree::Arr(
                        busy_days(json::elements_of(json::field(r, "status"@)), 7),
                    ),
                ),
            ).push(
                (
                    "freeNote"@,
                    json::Tree::Str(
                        "busyByDay=被占用的大节（每格≈两大节）；未列出的天/节次均空闲"@,
                    ),
                ),
            ),
        )
}

/// The week that is asked for: the building's own where none is named.
pub open spec fn week_of(args: json::Tree, b: json::Tree) -> i64 {
    match json::i64_of(json::field(args, "week"@)) {
        Some(w) => w,
        None => json::int_at(b, "weekNumber"@),
    }
}

/// What is told of a building's rooms in a week: the first 60 of them.
pub open spec fn building(b: json::Tree, week: i64, st: json::Tree) -> json::Tree {
    json::Tree::Obj(
        json::no_fields().push(("building"@, json::Tree::Str(json::text_at(b, "name"@)))).push(
            ("week"@, json::int_tree(week as int)),
        ).push(
            (
                "rooms"@,
                json::Tree::Arr(
                    plan::first(json::elements_of(json::field(st, "classroomStates"@)), 60).map(
                        room_row(),
                    ),
                ),
            ),
        ),
    )
}

pub open spec fn state_plan(args: json::Tree, b: json::Tree) -> plan::Plan {
    let week = week_of(args, b);
    plan::ask(
        "info"@,
        "classroomState"@,
        json::Tree::Arr(
            json::no_items().push(json::Tree::Str(json::text_at(b, "name"@))).push(
                json::int_tree(week as int),
            ),
        ),
        |st: json::Tree| plan::say(building(b, week, st)),
    )
}

pub open spec fn classrooms_plan(args: json::Tree) -> plan::Plan {
    plan::ask(
        "info"@,
        "classroomList"@,
        plan::none(),
        |v: json::Tree|
            {
                let list = json::elements(v);
                let word = json::text_at(args, "building"@);
                let i = called_from(list, word, 0);
                if i < list.len() {
                    state_plan(args, list[i])
                } else {
                    plan::fail(no_building(word, list))
                }
            },
    )
}

fn find_building(list: &Vec<Json>, word: &str) -> (r: usize)
    ensures
        r == called_from(json::trees(list@), word@, 0),
        r <= list@.len(),
{
    let ghost all = json::trees(list@);
    let mut i: usize = 0;
    while i < list.len() && !(text::contains(list[i].text("name").as_str(), word)
        || text::contains(list[i].text("searchName").as_str(), word))
        invariant
            i <= list@.len(),
            all == json::trees(list@),
            called_from(all, word@, i as int) == called_from(all, word@, 0),
        decreases list@.len() - i,
    {
        assert(all[i as int] == list@[i as int]@);
        i += 1;
    }
    assert(i < list@.len() ==> all[i as int] == list@[i as int]@);
    i
}

fn name_of_day(day: usize) -> (r: &'static str)
    ensures
        r@ == day_name(day as int),
{
    if day == 0 {
        "周一"
    } else if day == 1 {
        "周二"
    } else if day == 2 {
        "周三"
    } else if day == 3 {
        "周四"
    } else if day == 4 {
        "周五"
    } else if day == 5 {
        "周六"
    } else {
        "周日"
    }
}

fn periods_of(states: &Vec<Json>, day: usize) -> (r: Arr)
    ensures
        r@ == busy_periods(json::trees(states@), day as int),
{
    let ghost all = json::trees(states@);
    let mut list = Arr::new();
    let mut p: usize = 0;
    assert(all.take(0) =~= Seq::empty());
    while p < states.len()
        invariant
            p <= states@.len(),
            all == json::trees(states@),
            list@ == busy_periods(all.take(p as int), day as int),
        decreases states@.len() - p,
    {
        assert(all.take(p + 1).drop_last() =~= all.take(p as int));
        assert(all.take(p + 1).last() == states@[p as int]@);
        let free = match states[p].as_i64() {
            Some(x) => x == 5,
            None => false,
        };
        if !free && p / 6 == day {
            list = list.with(json::count(p % 6 + 1));
        }
        p += 1;
    }
    assert(all.take(all.len() as int) =~= all);
    list
}

fn days_of(states: &Vec<Json>) -> (r: Json)
    ensures
        r@ == json::Tree::Arr(busy_days(json::trees(states@), 7)),
{
    let mut list = Arr::new();
    let mut day: usize = 0;
    while day < 7
        invariant
            day <= 7,
            list@ == busy_days(json::trees(states@), day as int),
        decreases 7 - day,
    {
        let periods = periods_of(states, day);
        if periods.len() > 0 {
            list = list.with(
                Rec::new().text("day", name_of_day(day)).with(
                    "busyPeriods",
                    periods.done(),
                ).done(),
            );
        }
        day += 1;
    }
    list.done()
}

fn room_of(i: usize, r: &Json) -> (row: Json)
    ensures
        row@ == room_row()(i as int, r@),
{
    let name = r.text("name");
    let shown = if name.as_str().is_empty() {
        text::cat("教室", text::write_usize(i).as_str())
    } else {
        name
    };
    let days = days_of(&r.items_at("status"));
    Rec::new().text("room", shown.as_str()).whole("capacity", r.whole("capacity")).with(
        "busyByDay",
        days,
    ).text(
        "freeNote",
        "busyByDay=被占用的大节（每格≈两大节）；未列出的天/节次均空闲",
    ).done()
}

fn find_week(args: &Json, b: &Json) -> (r: i64)
    ensures
        r == week_of(args@, b@),
{
    match args.get("week") {
        Some(w) => match w.as_i64() {
            Some(n) => n,
            None => b.whole("weekNumber"),
        },
        None => b.whole("weekNumber"),
    }
}

pub(crate) fn query_empty_classrooms<H: Host>(
    h: &mut H,
    args: &Json,
    Ghost(t): Ghost<plan::Run>,
) -> (r: Result<Json, String>)
    requires
        plan::on_way(t, old(h).log()),
        t.at == classrooms_plan(args@),
    ensures
        plan::on_way(plan::at(t, plan::end_of(r)), final(h).log()),
{
    let word = args.text("building");
    let v = match plan::host(h, "info", "classroomList", plan::no_args(), Ghost(t)) {
        Ok(v) => v,
        Err(e) => {
            return Err(e);
        },
    };
    let ghost t = plan::next(t, Ok(v@));
    let list = v.items();
    let i = find_building(&list, word.as_str());
    if i >= list.len() {
        let mut e = text::cat3("找不到楼栋「", word.as_str(), "」，可用：");
        e.append(text::join(&plan::names_in(&list, "name"), "、").as_str());
        return Err(e);
    }
    let b = &list[i];
    assert(b@ == json::trees(list@)[i as int]);
    let week = find_week(args, b);
    let asked = Arr::new().text(b.text("name").as_str()).whole(week).done();
    let st = match plan::host(h, "info", "classroomState", asked, Ghost(t)) {
        Ok(v) => v,
        Err(e) => {
            return Err(e);
        },
    };
    let rooms = plan::rows(&st.items_at("classroomStates"), 60, room_of, Ghost(room_row()));
    Ok(
        Rec::new().text("building", b.text("name").as_str()).whole("week", week).with(
            "rooms",
            rooms,
        ).done(),
    )
}

proof fn lemma_periods(states: Seq<json::Tree>, day: int, x: u64)
    ensures
        busy_periods(states, day).contains(json::Tree::Pos(x)) <==> exists|p: int|
            0 <= p < states.len() && is_busy(#[trigger] states[p]) && p / 6 == day && p % 6 + 1
                == x,
    decreases states.len(),
{
    if states.len() > 0 {
        let shorter = states.drop_last();
        let last = states.len() - 1;
        lemma_periods(shorter, day, x);
        let before = busy_periods(shorter, day);
        let now = busy_periods(states, day);
        if before.contains(json::Tree::Pos(x)) {
            let p = choose|p: int|
                0 <= p < shorter.len() && is_busy(#[trigger] shorter[p]) && p / 6 == day && p % 6
                    + 1 == x;
            assert(states[p] == shorter[p]);
            let k = choose|k: int| 0 <= k < before.len() && before[k] == json::Tree::Pos(x);
            assert(now[k] == before[k]);
        }
        if is_busy(states.last()) && last / 6 == day {
            assert(states[last] == states.last());
            assert(now[now.len() - 1] == json::Tree::Pos((last % 6 + 1) as u64));
        }
        if now.contains(json::Tree::Pos(x)) && !before.contains(json::Tree::Pos(x)) {
            let k = choose|k: int| 0 <= k < now.len() && now[k] == json::Tree::Pos(x);
            if k < before.len() {
                assert(before[k] == now[k]);
            }
            assert(k == now.len() - 1);
            assert(states[last] == states.last());
        }
        if exists|p: int|
            0 <= p < states.len() && is_busy(#[trigger] states[p]) && p / 6 == day && p % 6 + 1
                == x {
            let p = choose|p: int|
                0 <= p < states.len() && is_busy(#[trigger] states[p]) && p / 6 == day && p % 6
                    + 1 == x;
            if p < last {
                assert(shorter[p] == states[p]);
            } else {
                assert(now.last() == json::Tree::Pos(x));
            }
        }
    }
}

/// Period `x` of a day is told as taken exactly where its state says so.
pub proof fn law_told_periods_are_the_taken_ones(states: Seq<json::Tree>, day: int, x: u64)
    requires
        0 <= day < 7,
        1 <= x <= 6,
    ensures
        busy_periods(states, day).contains(json::Tree::Pos(x)) <==> (6 * day + x - 1 < states.len()
            && is_busy(states[6 * day + x - 1])),
{
    lemma_periods(states, day, x);
    let p = 6 * day + x - 1;
    assert(p / 6 == day && p % 6 + 1 == x);
    if p < states.len() {
        assert(states[p] == states[p]);
    }
}

} // verus!
