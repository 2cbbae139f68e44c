//! The tools for the rooms of the libraries. As with seats, a room is named by
//! indices and fetched from the host anew.

use crate::config;
use crate::date;
use crate::date::Date;
use crate::host;
use crate::host::Host;
use crate::json;
use crate::json::{Arr, Json, Rec};
use crate::text;
use crate::tools::plan;
use vstd::prelude::*;

verus! {

pub open spec fn bad_day(raw: Seq<char>) -> Seq<char> {
    "无法理解日期「"@ + raw + "」"@
}

/// The day that the arguments name, or what is said where they name none.
pub open spec fn room_day(today: Date, args: json::Tree) -> Result<Seq<char>, Seq<char>> {
    let raw = json::text_at(args, "date"@);
    match config::resolved(today, raw) {
        Some(n) => Ok(date::date_at(n).text()),
        None => Err(bad_day(raw)),
    }
}

pub open spec fn text_of(r: Result<String, String>) -> Result<Seq<char>, Seq<char>> {
    match r {
        Ok(s) => Ok(s@),
        Err(e) => Err(e@),
    }
}

fn find_day(today: Date, args: &Json) -> (r: Result<String, String>)
    requires
        today.wf(),
    ensures
        text_of(r) == room_day(today, args@),
{
    let raw = args.text("date");
    match config::resolve_date_on(today, raw.as_str()) {
        Some(d) => {
            proof {
                date::lemma_date_at(d);
            }
            Ok(date::date_text(d))
        },
        None => Err(text::cat3("无法理解日期「", raw.as_str(), "」")),
    }
}

/// What is told of a kind of room.
pub open spec fn kind_row() -> spec_fn(int, json::Tree) -> json::Tree {
    |i: int, k: json::Tree|
        json::Tree::Obj(
            json::no_fields().push(("kindIdx"@, json::Tree::Pos(i as u64))).push(
                ("kindId"@, json::int_tree(json::int_at(k, "kindId"@) as int)),
            ).push(("kindName"@, json::Tree::Str(json::text_at(k, "kindName"@)))),
        )
}

/// The kinds of room that there are.
pub open spec fn catalog(kinds: Seq<json::Tree>) -> json::Tree {
    json::Tree::Obj(
        json::no_fields().push(("kinds"@, json::Tree::Arr(kinds.map(kind_row())))).push(
            (
                "note"@,
                json::Tree::Str(
                    "以上是全部类型目录；查某类型的房间与占用请带 kind 参数重查（如 kind=研讨间）"@,
                ),
            ),
        ),
    )
}

/// The places of the kinds whose name holds a word.
pub open spec fn kinds_called(kinds: Seq<json::Tree>, word: Seq<char>) -> Seq<int>
    decreases kinds.len(),
{
    if kinds.len() == 0 {
        Seq::empty()
    } else {
        let before = kinds_called(kinds.drop_last(), word);
        if text::occurs(json::text_at(kinds.last(), "kindName"@), word) {
            before.push(kinds.len() - 1)
        } else {
            before
        }
    }
}

pub open spec fn no_kind(word: Seq<char>, kinds: Seq<json::Tree>) -> Seq<char> {
    "找不到类型「"@ + word + "」，可用："@ + text::joined(plan::names(kinds, "kindName"@), "、"@)
}

/// What is told of the rooms of a kind on a day.
pub open spec fn rooms_row(i: int, k: json::Tree, day: Seq<char>, rooms: json::Tree) -> json::Tree {
    json::Tree::Obj(
        json::no_fields().push(("kindIdx"@, json::Tree::Pos(i as u64))).push(
            ("kindId"@, json::int_tree(json::int_at(k, "kindId"@) as int)),
        ).push(("kindName"@, json::Tree::Str(json::text_at(k, "kindName"@)))).push(
            ("date"@, json::Tree::Str(day)),
        ).push(("rooms"@, json::Tree::Arr(json::elements(rooms)))),
    )
}

/// A day and a kind, as arguments.
pub open spec fn rooms_args(day: Seq<char>, k: json::Tree) -> json::Tree {
    json::Tree::Arr(
        json::no_items().push(json::Tree::Str(day)).push(
            json::int_tree(json::int_at(k, "kindId"@) as int),
        ),
    )
}

fn args_for(day: &str, k: &Json) -> (r: Json)
    ensures
        r@ == rooms_args(day@, k@),
{
    Arr::new().text(day).whole(k.whole("kindId")).done()
}

/// The rooms of one kind after another, not too fast: 600 ms apart, and once more
/// after 1500 ms where the first attempt failed.
pub open spec fn kinds_plan(
    kinds: Seq<json::Tree>,
    chosen: Seq<int>,
    day: Seq<char>,
    i: int,
    out: Seq<json::Tree>,
) -> plan::Plan
    decreases chosen.len() - i,
{
    if i < 0 || i >= chosen.len() {
        plan::say(json::Tree::Obj(json::no_fields().push(("kinds"@, json::Tree::Arr(out)))))
    } else {
        let k = kinds[chosen[i]];
        let fetch = plan::Plan::Call {
            ns: "libroom"@,
            method: "resources"@,
            args: rooms_args(day, k),
            then: |r: host::Reply|
                match r {
                    Ok(v) => kinds_plan(
                        kinds,
                        chosen,
                        day,
                        i + 1,
                        out.push(rooms_row(chosen[i], k, day, v)),
                    ),
                    Err(_) => plan::Plan::Pause {
                        ms: 1500,
                        next: Box::new(
                            plan::ask(
                                "libroom"@,
                                "resources"@,
                                rooms_args(day, k),
                                |v: json::Tree|
                                    kinds_plan(
                                        kinds,
                                        chosen,
                                        day,
                                        i + 1,
                                        out.push(rooms_row(chosen[i], k, day, v)),
                                    ),
                            ),
                        ),
                    },
                },
        };
        if i > 0 {
            plan::Plan::Pause { ms: 600, next: Box::new(fetch) }
        } else {
            fetch
        }
    }
}

pub open spec fn librooms_plan(today: Date, args: json::Tree) -> plan::Plan {
    match room_day(today, args) {
        Err(e) => plan::fail(e),
        Ok(day) => plan::ask(
            "libroom"@,
            "list"@,
            plan::none(),
            |v: json::Tree|
                {
                    let kinds = json::elements(v);
                    let word = json::text_at(args, "kind"@);
                    if word.len() == 0 {
                        plan::say(catalog(kinds))
                    } else if kinds_called(kinds, word).len() == 0 {
                        plan::fail(no_kind(word, kinds))
                    } else {
                        kinds_plan(kinds, kinds_called(kinds, word), day, 0, json::no_items())
                    }
                },
        ),
    }
}

fn kind_of(i: usize, k: &Json) -> (r: Json)
    ensures
        r@ == kind_row()(i as int, k@),
{
    Rec::new().count("kindIdx", i).whole("kindId", k.whole("kindId")).text(
        "kindName",
        k.text("kindName").as_str(),
    ).done()
}

fn find_kinds(kinds: &Vec<Json>, word: &str) -> (r: Vec<usize>)
    ensures
        plan::places(r@) == kinds_called(json::trees(kinds@), word@),
        forall|k: int| 0 <= k < r@.len() ==> (#[trigger] r@[k]) < kinds@.len(),
{
    let ghost all = json::trees(kinds@);
    let mut out: Vec<usize> = Vec::new();
    let mut i: usize = 0;
    assert(all.take(0) =~= Seq::empty());
    assert(plan::places(out@) =~= Seq::empty());
    while i < kinds.len()
        invariant
            i <= kinds@.len(),
            all == json::trees(kinds@),
            plan::places(out@) == kinds_called(all.take(i as int), word@),
            forall|k: int| 0 <= k < out@.len() ==> (#[trigger] out@[k]) < i,
        decreases kinds@.len() - i,
    {
        assert(all.take(i + 1).drop_last() =~= all.take(i as int));
        assert(all.take(i + 1).last() == kinds@[i as int]@);
        if text::contains(kinds[i].text("kindName").as_str(), word) {
            let ghost before = out@;
            out.push(i);
            assert(plan::places(out@) =~= plan::places(before).push(i as int));
        }
        i += 1;
    }
    assert(all.take(all.len() as int) =~= all);
    out
}

fn rooms_of(i: usize, k: &Json, day: &str, rooms: &Json) -> (r: Json)
    ensures
        r@ == rooms_row(i as int, k@, day@, rooms@),
{
    Rec::new().count("kindIdx", i).whole("kindId", k.whole("kindId")).text(
        "kindName",
        k.text("kindName").as_str(),
    ).text("date", day).with("rooms", json::list(rooms.items())).done()
}

pub(crate) fn query_librooms<H: Host>(
    h: &mut H,
    today: Date,
    args: &Json,
    Ghost(run): Ghost<plan::Run>,
) -> (r: Result<Json, String>)
    requires
        today.wf(),
        plan::on_way(run, old(h).log()),
        run.at == librooms_plan(today, args@),
    ensures
        plan::on_way(plan::at(run, plan::end_of(r)), final(h).log()),
{
    let day = match find_day(today, args) {
        Ok(d) => d,
        Err(e) => {
            return Err(e);
        },
    };
    let v = match plan::host(h, "libroom", "list", plan::no_args(), Ghost(run)) {
        Ok(v) => v,
        Err(e) => {
            return Err(e);
        },
    };
    let kinds = v.items();
    let ghost all = json::trees(kinds@);
    let word = args.text("kind");
    if word.as_str().is_empty() {
        let list = plan::rows(&kinds, kinds.len(), kind_of, Ghost(kind_row()));
        return Ok(
            Rec::new().with("kinds", list).text(
                "note",
                "以上是全部类型目录；查某类型的房间与占用请带 kind 参数重查（如 kind=研讨间）",
            ).done(),
        );
    }
    let chosen = find_kinds(&kinds, word.as_str());
    let ghost which = plan::places(chosen@);
    assert(which.len() == chosen@.len());
    if chosen.len() == 0 {
        let mut e = text::cat3("找不到类型「", word.as_str(), "」，可用：");
        e.append(text::join(&plan::names_in(&kinds, "kindName"), "、").as_str());
        return Err(e);
    }
    let mut out = Arr::new();
    let mut i: usize = 0;
    while i < chosen.len()
        invariant
            i <= chosen@.len(),
            all == json::trees(kinds@),
            which == plan::places(chosen@),
            forall|k: int| 0 <= k < chosen@.len() ==> (#[trigger] chosen@[k]) < kinds@.len(),
            plan::on_way(plan::at(run, kinds_plan(all, which, day@, i as int, out@)), h.log()),
        decreases chosen@.len() - i,
    {
        let ghost t = plan::at(run, kinds_plan(all, which, day@, i as int, out@));
        let ki = chosen[i];
        let k = &kinds[ki];
        assert(which[i as int] == ki);
        assert(all[ki as int] == k@);
        if i > 0 {
            plan::pause(h, 600, Ghost(t));
        }
        let ghost t = if i > 0 {
            plan::at(run, *t.at->Pause_next)
        } else {
            t
        };
        let found = match plan::host(
            h,
            "libroom",
            "resources",
            args_for(day.as_str(), k),
            Ghost(t),
        ) {
            Ok(v) => v,
            Err(e) => {
                let ghost t = plan::next(t, Err(e@));
                plan::pause(h, 1500, Ghost(t));
                let ghost t = plan::at(run, *t.at->Pause_next);
                match plan::host(h, "libroom", "resources", args_for(day.as_str(), k), Ghost(t)) {
                    Ok(v) => v,
                    Err(e) => {
                        return Err(e);
                    },
                }
            },
        };
        let row = rooms_of(ki, k, day.as_str(), &found);
        out = out.with(row);
        i += 1;
    }
    Ok(Rec::new().with("kinds", out.done()).done())
}

/// A room, and the day it is for.
pub struct Room {
    pub room: Json,
    pub day: String,
}

pub struct RoomV {
    pub room: json::Tree,
    pub day: Seq<char>,
}

impl View for Room {
    type V = RoomV;

    open spec fn view(&self) -> RoomV {
        RoomV { room: self.room@, day: self.day@ }
    }
}

/// Fetches the room that the indices name, and goes on with it.
pub open spec fn room_plan(
    today: Date,
    args: json::Tree,
    then: spec_fn(RoomV) -> plan::Plan,
) -> plan::Plan {
    match room_day(today, args) {
        Err(e) => plan::fail(e),
        Ok(day) => plan::ask(
            "libroom"@,
            "list"@,
            plan::none(),
            |kinds: json::Tree|
                match plan::nth(json::elements(kinds), json::int_at(args, "kindIdx"@)) {
                    None => plan::fail("kindIdx 越界（请重新 query_librooms）"@),
                    Some(kind) => plan::ask(
                        "libroom"@,
                        "resources"@,
                        rooms_args(day, kind),
                        |rooms: json::Tree|
                            match plan::nth(
                                json::elements(rooms),
                                json::int_at(args, "roomIdx"@),
                            ) {
                                None => plan::fail("roomIdx 越界（请重新 query_librooms）"@),
                                Some(room) => then(RoomV { room, day }),
                            },
                    ),
                },
        ),
    }
}

/// What follows the fetching of a room.
pub open spec fn room_end(r: Result<Room, String>, then: spec_fn(RoomV) -> plan::Plan) -> plan::Plan {
    match r {
        Ok(x) => then(x@),
        Err(e) => plan::fail(e@),
    }
}

fn resolve_room<H: Host>(
    h: &mut H,
    today: Date,
    args: &Json,
    Ghost(then): Ghost<spec_fn(RoomV) -> plan::Plan>,
    Ghost(t): Ghost<plan::Run>,
) -> (r: Result<Room, String>)
    requires
        today.wf(),
        plan::on_way(t, old(h).log()),
        t.at == room_plan(today, args@, then),
    ensures
        plan::on_way(plan::at(t, room_end(r, then)), final(h).log()),
{
    let day = match find_day(today, args) {
        Ok(d) => d,
        Err(e) => {
            return Err(e);
        },
    };
    let kinds = match plan::host(h, "libroom", "list", plan::no_args(), Ghost(t)) {
        Ok(v) => v,
        Err(e) => {
            return Err(e);
        },
    };
    let ghost t = plan::next(t, Ok(kinds@));
    let kinds = kinds.items();
    let kind = match plan::pick(&kinds, args.whole("kindIdx")) {
        Some(x) => x,
        None => {
            return Err("kindIdx 越界（请重新 query_librooms）".to_owned());
        },
    };
    let rooms = match plan::host(
        h,
        "libroom",
        "resources",
        args_for(day.as_str(), kind),
        Ghost(t),
    ) {
        Ok(v) => v,
        Err(e) => {
            return Err(e);
        },
    };
    let rooms = rooms.items();
    match plan::pick(&rooms, args.whole("roomIdx")) {
        Some(room) => Ok(Room { room: room.clone(), day }),
        None => Err("roomIdx 越界（请重新 query_librooms）".to_owned()),
    }
}

/// The arguments with the index of a kind.
pub open spec fn with_kind(args: json::Tree, i: int) -> json::Tree {
    match args {
        json::Tree::Obj(fields) => json::Tree::Obj(
            fields.push(("kindIdx"@, json::Tree::Pos(i as u64))),
        ),
        _ => json::Tree::Obj(json::no_fields().push(("kindIdx"@, json::Tree::Pos(i as u64)))),
    }
}

/// The first kind at or after `i` whose name holds the word, any where the word is
/// empty; the length where there is none.
pub open spec fn kind_from(kinds: Seq<json::Tree>, word: Seq<char>, i: int) -> int
    decreases kinds.len() - i,
{
    if i < kinds.len() && word.len() > 0 && !text::occurs(
        json::text_at(kinds[i], "kindName"@),
        word,
    ) {
        kind_from(kinds, word, i + 1)
    } else {
        i
    }
}

/// Fetches a room as `room_plan` does; its kind is looked for where the arguments do
/// not give its index.
pub open spec fn libroom_plan(
    today: Date,
    args: json::Tree,
    then: spec_fn(RoomV) -> plan::Plan,
) -> plan::Plan {
    if json::field(args, "kindIdx"@) is None {
        plan::ask(
            "libroom"@,
            "list"@,
            plan::none(),
            |v: json::Tree|
                {
                    let kinds = json::elements(v);
                    let i = kind_from(kinds, json::text_at(args, "kind"@), 0);
                    if i < kinds.len() {
                        room_plan(today, with_kind(args, i), then)
                    } else {
                        plan::fail("找不到房间类型"@)
                    }
                },
        )
    } else {
        room_plan(today, args, then)
    }
}

fn find_kind(kinds: &Vec<Json>, word: &str) -> (r: usize)
    ensures
        r == kind_from(json::trees(kinds@), word@, 0),
        r <= kinds@.len(),
{
    let ghost all = json::trees(kinds@);
    let mut i: usize = 0;
    while i < kinds.len() && !(word.is_empty() || text::contains(
        kinds[i].text("kindName").as_str(),
        word,
    ))
        invariant
            i <= kinds@.len(),
            all == json::trees(kinds@),
            kind_from(all, word@, i as int) == kind_from(all, word@, 0),
        decreases kinds@.len() - i,
    {
        assert(all[i as int] == kinds@[i as int]@);
        i += 1;
    }
    assert(i < kinds@.len() ==> all[i as int] == kinds@[i as int]@);
    i
}

fn add_kind(args: &Json, i: usize) -> (r: Json)
    ensures
        r@ == with_kind(args@, i as int),
{
    match args {
        Json::Record(fields) => {
            let mut out = json::copy_fields(fields);
            let ghost before = out@;
            out.push(("kindIdx".to_owned(), json::count(i)));
            proof {
                json::lemma_record(*fields);
                json::lemma_record(out);
                assert(json::pairs(out@) =~= json::pairs(before).push(
                    ("kindIdx"@, json::Tree::Pos(i as u64)),
                ));
            }
            Json::Record(out)
        },
        _ => Rec::new().count("kindIdx", i).done(),
    }
}

fn resolve_libroom<H: Host>(
    h: &mut H,
    today: Date,
    args: &Json,
    Ghost(then): Ghost<spec_fn(RoomV) -> plan::Plan>,
    Ghost(t): Ghost<plan::Run>,
) -> (r: Result<Room, String>)
    requires
        today.wf(),
        plan::on_way(t, old(h).log()),
        t.at == libroom_plan(today, args@, then),
    ensures
        plan::on_way(plan::at(t, room_end(r, then)), final(h).log()),
{
    match args.get("kindIdx") {
        Some(_) => resolve_room(h, today, args, Ghost(then), Ghost(t)),
        None => {
            let v = match plan::host(h, "libroom", "list", plan::no_args(), Ghost(t)) {
                Ok(v) => v,
                Err(e) => {
                    return Err(e);
                },
            };
            let ghost t = plan::next(t, Ok(v@));
            let kinds = v.items();
            let i = find_kind(&kinds, args.text("kind").as_str());
            if i >= kinds.len() {
                return Err("找不到房间类型".to_owned());
            }
            let indices = add_kind(args, i);
            resolve_room(h, today, &indices, Ghost(then), Ghost(t))
        },
    }
}

/// The name of a room: that of its device where it has none of its own.
pub open spec fn room_name(room: json::Tree) -> Seq<char> {
    let name = json::text_at(room, "roomName"@);
    if name.len() == 0 {
        json::text_at(room, "devName"@)
    } else {
        name
    }
}

fn name_of(room: &Json) -> (r: String)
    ensures
        r@ == room_name(room@),
{
    let name = room.text("roomName");
    if name.as_str().is_empty() {
        room.text("devName")
    } else {
        name
    }
}

/// What the user is shown of a room before it is booked.
pub open spec fn room_summary(x: RoomV, args: json::Tree) -> Seq<char> {
    "预约研讨间："@ + room_name(x.room) + "（"@ + x.day + " "@ + json::text_at(args, "start"@)
        + "-"@ + json::text_at(args, "end"@) + "，成员 "@ + text::decimal(
        json::elements_of(json::field(args, "members"@)).len(),
    ) + " 人，不含本人）"@
}

/// Has the user confirm the room.
pub open spec fn confirm_room(args: json::Tree) -> spec_fn(RoomV) -> plan::Plan {
    |x: RoomV| plan::confirm("book_libroom"@, args, room_summary(x, args))
}

pub(crate) fn summarize_room<H: Host>(
    h: &mut H,
    today: Date,
    args: &Json,
    Ghost(t): Ghost<plan::Run>,
) -> (r: Result<String, String>)
    requires
        today.wf(),
        plan::on_way(t, old(h).log()),
        t.at == libroom_plan(today, args@, confirm_room(args@)),
    ensures
        plan::on_way(plan::at(t, plan::summary_of("book_libroom"@, args@, r)), final(h).log()),
{
    match resolve_libroom(h, today, args, Ghost(confirm_room(args@)), Ghost(t)) {
        Ok(x) => {
            let mut s = text::cat3("预约研讨间：", name_of(&x.room).as_str(), "（");
            s.append(x.day.as_str());
            s.append(" ");
            s.append(args.text("start").as_str());
            s.append("-");
            s.append(args.text("end").as_str());
            s.append("，成员 ");
            s.append(text::write_usize(args.items_at("members").len()).as_str());
            s.append(" 人，不含本人）");
            Ok(s)
        },
        Err(e) => Err(e),
    }
}

/// A moment of a day, as the host writes it.
pub open spec fn moment(day: Seq<char>, t: (u32, u32)) -> Seq<char> {
    day + " "@ + text::two_digits(t.0 as nat) + ":"@ + text::two_digits(t.1 as nat)
}

fn moment_of(day: &str, t: (u32, u32)) -> (r: String)
    ensures
        r@ == moment(day@, t),
{
    let mut s = text::cat3(day, " ", text::write_two(t.0).as_str());
    s.append(":");
    s.append(text::write_two(t.1).as_str());
    s
}

pub open spec fn minutes_between(start: (u32, u32), end: (u32, u32)) -> int {
    (end.0 * 60 + end.1) - (start.0 * 60 + start.1)
}

/// What keeps a room from being booked: the times, how long it is wanted, or for how
/// many.
pub open spec fn obstacle(
    room: json::Tree,
    start: (u32, u32),
    end: (u32, u32),
    members: nat,
) -> Option<Seq<char>> {
    let minutes = minutes_between(start, end);
    let max = json::int_at(room, "maxMinute"@);
    let limit = json::int_at(room, "limit"@);
    if minutes <= 0 {
        Some("结束时间需晚于开始时间"@)
    } else if max > 0 && minutes > max {
        Some(
            "时长 "@ + text::signed_decimal(minutes) + " 分钟超过该资源上限 "@
                + text::signed_decimal(max as int) + " 分钟"@,
        )
    } else if members > 0 && limit > 0 && members > limit {
        Some(
            "成员 "@ + text::decimal(members) + " 人超过上限 "@ + text::signed_decimal(
                limit as int,
            ) + "（发起人另计，按 UI 语义）"@,
        )
    } else {
        None
    }
}

/// The word by which a member is looked for.
pub open spec fn member_word(m: json::Tree) -> Seq<char> {
    match json::str_of(Some(m)) {
        Some(s) => text::trimmed(s),
        None => Seq::empty(),
    }
}

/// The first hit at or after `i` whose label holds the word; the length where there
/// is none.
pub open spec fn hit_from(hits: Seq<json::Tree>, word: Seq<char>, i: int) -> int
    decreases hits.len() - i,
{
    if i < hits.len() && !(match json::str_of(json::field(hits[i], "label"@)) {
        Some(l) => text::occurs(l, word),
        None => false,
    }) {
        hit_from(hits, word, i + 1)
    } else {
        i
    }
}

/// The hit that is taken: one whose label holds the word, or else the first.
pub open spec fn best_hit(hits: Seq<json::Tree>, word: Seq<char>) -> Option<json::Tree> {
    let i = hit_from(hits, word, 0);
    if i < hits.len() {
        Some(hits[i])
    } else if hits.len() > 0 {
        Some(hits[0])
    } else {
        None
    }
}

/// The account number of a hit: a number, or a text that writes one.
pub open spec fn account(hit: json::Tree) -> Option<i64> {
    let id = json::field(hit, "id"@);
    match json::i64_of(id) {
        Some(n) => Some(n),
        None => match json::str_of(id) {
            Some(s) => text::read_i64(text::trimmed(s)),
            None => None,
        },
    }
}

/// Looks the members up one after another, and books the room for them.
pub open spec fn members_plan(
    x: RoomV,
    from: Seq<char>,
    to: Seq<char>,
    members: Seq<json::Tree>,
    i: int,
    accounts: Seq<json::Tree>,
) -> plan::Plan
    decreases members.len() - i,
{
    if i < 0 || i >= members.len() {
        plan::ask(
            "libroom"@,
            "book"@,
            json::Tree::Arr(
                json::no_items().push(x.room).push(json::Tree::Str(from)).push(
                    json::Tree::Str(to),
                ).push(json::Tree::Arr(accounts)),
            ),
            |v: json::Tree|
                plan::say(
                    json::Tree::Obj(
                        json::no_fields().push(("success"@, json::Tree::Bool(true))).push(
                            ("room"@, json::Tree::Str(room_name(x.room))),
                        ).push(("time"@, json::Tree::Str(from + " ~ "@ + to))),
                    ),
                ),
        )
    } else {
        let word = member_word(members[i]);
        if word.len() == 0 {
            members_plan(x, from, to, members, i + 1, accounts)
        } else {
            plan::ask(
                "libroom"@,
                "fuzzyMember"@,
                json::Tree::Arr(json::no_items().push(json::Tree::Str(word))),
                |v: json::Tree|
                    match best_hit(json::elements(v), word) {
                        None => plan::fail("搜不到成员「"@ + word + "」"@),
                        Some(hit) => match account(hit) {
                            None => plan::fail(
                                "成员 accNo 解析失败："@ + json::json_text(hit),
                            ),
                            Some(n) => members_plan(
                                x,
                                from,
                                to,
                                members,
                                i + 1,
                                accounts.push(json::int_tree(n as int)),
                            ),
                        },
                    },
            )
        }
    }
}

/// Books the room: the object that the host gave for it, between the two times.
pub open spec fn book_room(args: json::Tree) -> spec_fn(RoomV) -> plan::Plan {
    |x: RoomV|
        match config::clock_time(json::text_at(args, "start"@)) {
            None => plan::fail("无法理解开始时间"@),
            Some(start) => match config::clock_time(json::text_at(args, "end"@)) {
                None => plan::fail("无法理解结束时间"@),
                Some(end) => {
                    let members = json::elements_of(json::field(args, "members"@));
                    match obstacle(x.room, start, end, members.len()) {
                        Some(e) => plan::fail(e),
                        None => members_plan(
                            x,
                            moment(x.day, start),
                            moment(x.day, end),
                            members,
                            0,
                            json::no_items(),
                        ),
                    }
                },
            },
        }
}

fn find_hit(hits: &Vec<Json>, word: &str) -> (r: usize)
    ensures
        r == hit_from(json::trees(hits@), word@, 0),
        r <= hits@.len(),
{
    let ghost all = json::trees(hits@);
    let mut i: usize = 0;
    while i < hits.len()
        invariant
            i <= hits@.len(),
            all == json::trees(hits@),
            hit_from(all, word@, i as int) == hit_from(all, word@, 0),
        decreases hits@.len() - i,
    {
        assert(all[i as int] == hits@[i as int]@);
        let good = match hits[i].text_option("label") {
            Some(l) => text::contains(l.as_str(), word),
            None => false,
        };
        if good {
            return i;
        }
        i += 1;
    }
    i
}

fn account_of(hit: &Json) -> (r: Option<i64>)
    ensures
        r == account(hit@),
{
    match hit.get("id") {
        Some(v) => match v.as_i64() {
            Some(n) => Some(n),
            None => match v.as_str() {
                Some(s) => text::parse_i64(&text::chars_of(text::trim(s).as_str())),
                None => None,
            },
        },
        None => None,
    }
}

fn find_obstacle(room: &Json, start: (u32, u32), end: (u32, u32), members: usize) -> (r: Option<
    String,
>)
    requires
        start.0 < 24 && start.1 < 60,
        end.0 < 24 && end.1 < 60,
    ensures
        text::option_text(r) == obstacle(room@, start, end, members as nat),
{
    let minutes: i64 = (end.0 * 60 + end.1) as i64 - (start.0 * 60 + start.1) as i64;
    let max = room.whole("maxMinute");
    let limit = room.whole("limit");
    if minutes <= 0 {
        return Some("结束时间需晚于开始时间".to_owned());
    }
    if max > 0 && minutes > max {
        let mut s = text::cat3("时长 ", text::write_i64(minutes).as_str(), " 分钟超过该资源上限 ");
        s.append(text::write_i64(max).as_str());
        s.append(" 分钟");
        return Some(s);
    }
    if members > 0 && limit > 0 && members as u64 > limit as u64 {
        let mut s = text::cat3("成员 ", text::write_usize(members).as_str(), " 人超过上限 ");
        s.append(text::write_i64(limit).as_str());
        s.append("（发起人另计，按 UI 语义）");
        return Some(s);
    }
    None
}

fn word_of(m: &Json) -> (r: String)
    ensures
        r@ == member_word(m@),
{
    match m.as_str() {
        Some(s) => text::trim(s),
        None => String::new(),
    }
}

fn book_for<H: Host>(
    h: &mut H,
    x: &Room,
    from: &str,
    to: &str,
    members: &Vec<Json>,
    Ghost(run): Ghost<plan::Run>,
) -> (r: Result<Json, String>)
    requires
        plan::on_way(run, old(h).log()),
        run.at == members_plan(x@, from@, to@, json::trees(members@), 0, json::no_items()),
    ensures
        plan::on_way(plan::at(run, plan::end_of(r)), final(h).log()),
{
    let ghost all = json::trees(members@);
    let mut accounts = Arr::new();
    let mut i: usize = 0;
    assert(all.len() == members@.len());
    while i < members.len()
        invariant
            i <= members@.len(),
            all == json::trees(members@),
            plan::on_way(
                plan::at(run, members_plan(x@, from@, to@, all, i as int, accounts@)),
                h.log(),
            ),
        decreases members@.len() - i,
    {
        let ghost t = plan::at(run, members_plan(x@, from@, to@, all, i as int, accounts@));
        assert(all[i as int] == members@[i as int]@);
        let word = word_of(&members[i]);
        if !word.as_str().is_empty() {
            let asked = Arr::new().text(word.as_str()).done();
            let hits = match plan::host(h, "libroom", "fuzzyMember", asked, Ghost(t)) {
                Ok(v) => v,
                Err(e) => {
                    return Err(e);
                },
            };
            let hits = hits.items();
            if hits.len() == 0 {
                return Err(text::cat3("搜不到成员「", word.as_str(), "」"));
            }
            let at = find_hit(&hits, word.as_str());
            let hit = if at < hits.len() { &hits[at] } else { &hits[0] };
            match account_of(hit) {
                Some(n) => {
                    accounts = accounts.whole(n);
                },
                None => {
                    return Err(text::cat("成员 accNo 解析失败：", json::print(hit).as_str()));
                },
            }
        }
        i += 1;
    }
    let ghost t = plan::at(run, members_plan(x@, from@, to@, all, i as int, accounts@));
    let asked = Arr::new().with(x.room.clone()).text(from).text(to).with(accounts.done()).done();
    match plan::host(h, "libroom", "book", asked, Ghost(t)) {
        Ok(_) => Ok(
            Rec::new().flag("success", true).text("room", name_of(&x.room).as_str()).text(
                "time",
                text::cat3(from, " ~ ", to).as_str(),
            ).done(),
        ),
        Err(e) => Err(e),
    }
}

pub(crate) fn book_libroom<H: Host>(
    h: &mut H,
    today: Date,
    args: &Json,
    Ghost(t): Ghost<plan::Run>,
) -> (r: Result<Json, String>)
    requires
        today.wf(),
        plan::on_way(t, old(h).log()),
        t.at == libroom_plan(today, args@, book_room(args@)),
    ensures
        plan::on_way(plan::at(t, plan::end_of(r)), final(h).log()),
{
    let ghost then = book_room(args@);
    let x = match resolve_libroom(h, today, args, Ghost(then), Ghost(t)) {
        Ok(x) => x,
        Err(e) => {
            return Err(e);
        },
    };
    let ghost t = plan::at(t, then(x@));
    let start = match config::resolve_hhmm(args.text("start").as_str()) {
        Some(p) => p,
        None => {
            return Err("无法理解开始时间".to_owned());
        },
    };
    let end = match config::resolve_hhmm(args.text("end").as_str()) {
        Some(p) => p,
        None => {
            return Err("无法理解结束时间".to_owned());
        },
    };
    let members = args.items_at("members");
    if let Some(e) = find_obstacle(&x.room, start, end, members.len()) {
        return Err(e);
    }
    let from = moment_of(x.day.as_str(), start);
    let to = moment_of(x.day.as_str(), end);
    book_for(h, &x, from.as_str(), to.as_str(), &members, Ghost(t))
}

/// What the user is shown of a booking before it is cancelled.
pub open spec fn cancel_summary(rec: json::Tree) -> Seq<char> {
    "取消研讨间预约："@ + json::text_at(rec, "devName"@) + " "@ + json::text_at(rec, "date"@)
        + " "@ + json::text_at(rec, "begin"@) + "-"@ + json::text_at(rec, "end"@)
}

/// Has the user confirm that a booking is to be cancelled.
pub open spec fn confirm_cancel_plan(args: json::Tree) -> plan::Plan {
    plan::ask(
        "libroom"@,
        "records"@,
        plan::none(),
        |recs: json::Tree|
            match plan::nth(json::elements(recs), json::int_at(args, "recordIdx"@)) {
                None => plan::fail("记录序号不存在，请先 my_libroom_bookings 查询"@),
                Some(rec) => plan::confirm("cancel_libroom_booking"@, args, cancel_summary(rec)),
            },
    )
}

pub(crate) fn summarize_cancel<H: Host>(
    h: &mut H,
    args: &Json,
    Ghost(t): Ghost<plan::Run>,
) -> (r: Result<String, String>)
    requires
        plan::on_way(t, old(h).log()),
        t.at == confirm_cancel_plan(args@),
    ensures
        plan::on_way(
            plan::at(t, plan::summary_of("cancel_libroom_booking"@, args@, r)),
            final(h).log(),
        ),
{
    let recs = match plan::host(h, "libroom", "records", plan::no_args(), Ghost(t)) {
        Ok(v) => v,
        Err(e) => {
            return Err(e);
        },
    };
    let items = recs.items();
    match plan::pick(&items, args.whole("recordIdx")) {
        Some(rec) => {
            let mut s = text::cat3("取消研讨间预约：", rec.text("devName").as_str(), " ");
            s.append(rec.text("date").as_str());
            s.append(" ");
            s.append(rec.text("begin").as_str());
            s.append("-");
            s.append(rec.text("end").as_str());
            Ok(s)
        },
        None => Err("记录序号不存在，请先 my_libroom_bookings 查询".to_owned()),
    }
}

pub open spec fn cancel_plan(args: json::Tree) -> plan::Plan {
    plan::ask(
        "libroom"@,
        "records"@,
        plan::none(),
        |recs: json::Tree|
            match plan::nth(json::elements(recs), json::int_at(args, "recordIdx"@)) {
                None => plan::fail("recordIdx 越界"@),
                Some(rec) => plan::ask(
                    "libroom"@,
                    "cancel"@,
                    json::Tree::Arr(
                        json::no_items().push(json::Tree::Str(json::text_at(rec, "uuid"@))),
                    ),
                    |v: json::Tree|
                        plan::say(
                            json::Tree::Obj(
                                json::no_fields().push(("success"@, json::Tree::Bool(true))),
                            ),
                        ),
                ),
            },
    )
}

pub(crate) fn cancel_libroom_booking<H: Host>(
    h: &mut H,
    args: &Json,
    Ghost(t): Ghost<plan::Run>,
) -> (r: Result<Json, String>)
    requires
        plan::on_way(t, old(h).log()),
        t.at == cancel_plan(args@),
    ensures
        plan::on_way(plan::at(t, plan::end_of(r)), final(h).log()),
{
    let recs = match plan::host(h, "libroom", "records", plan::no_args(), Ghost(t)) {
        Ok(v) => v,
        Err(e) => {
            return Err(e);
        },
    };
    let ghost t = plan::next(t, Ok(recs@));
    let items = recs.items();
    let rec = match plan::pick(&items, args.whole("recordIdx")) {
        Some(x) => x,
        None => {
            return Err("recordIdx 越界".to_owned());
        },
    };
    let asked = Arr::new().text(rec.text("uuid").as_str()).done();
    match plan::host(h, "libroom", "cancel", asked, Ghost(t)) {
        Ok(_) => Ok(Rec::new().flag("success", true).done()),
        Err(e) => Err(e),
    }
}

} // verus!
