//! The tools for the seats of the libraries. A seat is named to them by indices, and
//! the objects that the host takes are fetched from it anew.

use crate::config;
use crate::date;
use crate::date::Date;
use crate::host;
use crate::host::Host;
use crate::json;
use crate::json::{Arr, Json, Rec};
use crate::text;
use crate::tools::plan;
use vstd::prelude::*;

verus! {

/// The day that the arguments name: today where they name none.
pub open spec fn day_named(args: json::Tree) -> Seq<char> {
    plan::or_text(json::text_at(args, "date"@), "今天"@)
}

fn named_day(args: &Json) -> (r: String)
    ensures
        r@ == day_named(args@),
{
    plan::or_default(args.text("date").as_str(), "今天")
}

/// A value and the choice of a day, as arguments.
pub open spec fn with_choice(v: json::Tree, dc: u8) -> json::Tree {
    json::Tree::Arr(json::no_items().push(v).push(json::int_tree(dc as int)))
}

fn choice_args(v: Json, dc: u8) -> (r: Json)
    ensures
        r@ == with_choice(v@, dc),
{
    Arr::new().with(v).whole(dc as i64).done()
}

/// What is told of a floor.
pub open spec fn floor_row() -> spec_fn(int, json::Tree) -> json::Tree {
    |i: int, f: json::Tree|
        json::Tree::Obj(
            json::no_fields().push(("floorIdx"@, json::Tree::Pos(i as u64))).push(
                ("name"@, json::Tree::Str(json::text_at(f, "zhName"@))),
            ).push(("available"@, json::int_tree(json::int_at(f, "available"@) as int))).push(
                ("total"@, json::int_tree(json::int_at(f, "total"@) as int)),
            ),
        )
}

/// What is told of a library: its floors, or why they could not be had.
pub open spec fn library_row(i: int, lib: json::Tree, r: host::Reply) -> json::Tree {
    match r {
        Ok(floors) => json::Tree::Obj(
            json::no_fields().push(("libIdx"@, json::Tree::Pos(i as u64))).push(
                ("id"@, json::int_tree(json::int_at(lib, "id"@) as int)),
            ).push(("name"@, json::Tree::Str(json::text_at(lib, "zhName"@)))).push(
                ("floors"@, json::Tree::Arr(json::elements(floors).map(floor_row()))),
            ),
        ),
        Err(e) => json::Tree::Obj(
            json::no_fields().push(("libIdx"@, json::Tree::Pos(i as u64))).push(
                ("name"@, json::Tree::Str(json::text_at(lib, "zhName"@))),
            ).push(("error"@, json::Tree::Str(e))),
        ),
    }
}

/// The floors of one library after another. That one fails does not end the survey.
pub open spec fn survey_plan(
    libs: Seq<json::Tree>,
    dc: u8,
    i: int,
    out: Seq<json::Tree>,
) -> plan::Plan
    decreases libs.len() - i,
{
    if i < 0 || i >= libs.len() {
        plan::say(
            json::Tree::Obj(
                json::no_fields().push(("dateChoice"@, json::int_tree(dc as int))).push(
                    ("libraries"@, json::Tree::Arr(out)),
                ),
            ),
        )
    } else {
        plan::Plan::Call {
            ns: "library"@,
            method: "floors"@,
            args: with_choice(json::int_tree(json::int_at(libs[i], "id"@) as int), dc),
            then: |r: host::Reply|
                survey_plan(libs, dc, i + 1, out.push(library_row(i, libs[i], r))),
        }
    }
}

pub open spec fn library_plan(today: Date, args: json::Tree) -> plan::Plan {
    match config::choice(today, day_named(args)) {
        Ok(dc) => plan::ask(
            "library"@,
            "list"@,
            plan::none(),
            |v: json::Tree| survey_plan(json::elements(v), dc, 0, json::no_items()),
        ),
        Err(e) => plan::fail(e),
    }
}

fn floor_of(i: usize, f: &Json) -> (r: Json)
    ensures
        r@ == floor_row()(i as int, f@),
{
    Rec::new().count("floorIdx", i).text("name", f.text("zhName").as_str()).whole(
        "available",
        f.whole("available"),
    ).whole("total", f.whole("total")).done()
}

fn library_of(i: usize, lib: &Json, r: Result<Json, String>) -> (row: Json)
    ensures
        row@ == library_row(i as int, lib@, host::reply_of(r)),
{
    match r {
        Ok(floors) => {
            let items = floors.items();
            let list = plan::rows(&items, items.len(), floor_of, Ghost(floor_row()));
            Rec::new().count("libIdx", i).whole("id", lib.whole("id")).text(
                "name",
                lib.text("zhName").as_str(),
            ).with("floors", list).done()
        },
        Err(e) => Rec::new().count("libIdx", i).text("name", lib.text("zhName").as_str()).text(
            "error",
            e.as_str(),
        ).done(),
    }
}

pub(crate) fn query_library<H: Host>(
    h: &mut H,
    today: Date,
    args: &Json,
    Ghost(t): Ghost<plan::Run>,
) -> (r: Result<Json, String>)
    requires
        today.wf(),
        plan::on_way(t, old(h).log()),
        t.at == library_plan(today, args@),
    ensures
        plan::on_way(plan::at(t, plan::end_of(r)), final(h).log()),
{
    let dc = match config::date_choice_on(today, named_day(args).as_str()) {
        Ok(n) => n,
        Err(e) => {
            return Err(e);
        },
    };
    let v = match plan::host(h, "library", "list", plan::no_args(), Ghost(t)) {
        Ok(v) => v,
        Err(e) => {
            return Err(e);
        },
    };
    let libs = v.items();
    let ghost all = json::trees(libs@);
    let mut out = Arr::new();
    let mut i: usize = 0;
    while i < libs.len()
        invariant
            i <= libs@.len(),
            all == json::trees(libs@),
            plan::on_way(plan::at(t, survey_plan(all, dc, i as int, out@)), h.log()),
        decreases libs@.len() - i,
    {
        let ghost now = plan::at(t, survey_plan(all, dc, i as int, out@));
        assert(all[i as int] == libs@[i as int]@);
        let asked = choice_args(json::whole(libs[i].whole("id")), dc);
        let r = plan::host(h, "library", "floors", asked, Ghost(now));
        let row = library_of(i, &libs[i], r);
        out = out.with(row);
        i += 1;
    }
    Ok(Rec::new().whole("dateChoice", dc as i64).with("libraries", out.done()).done())
}

/// A seat can be booked: it says so itself, or it is not said to be invalid.
pub open spec fn is_free(seat: json::Tree) -> bool {
    match json::str_of(json::field(seat, "availability"@)) {
        Some(a) => a == "usable"@,
        None => json::bool_of(json::field(seat, "valid"@)) != Some(false),
    }
}

/// The places of the seats that can be booked.
pub open spec fn free_seats(seats: Seq<json::Tree>) -> Seq<int>
    decreases seats.len(),
{
    if seats.len() == 0 {
        Seq::empty()
    } else {
        let before = free_seats(seats.drop_last());
        if is_free(seats.last()) {
            before.push(seats.len() - 1)
        } else {
            before
        }
    }
}

/// What is told of a seat.
pub open spec fn seat_row(seats: Seq<json::Tree>, i: int) -> json::Tree {
    json::Tree::Obj(
        json::no_fields().push(("seatIdx"@, json::Tree::Pos(i as u64))).push(
            ("zhName"@, json::Tree::Str(json::text_at(seats[i], "zhName"@))),
        ).push(("type"@, json::Tree::Str(json::text_at(seats[i], "type"@)))).push(
            ("hasPower"@, json::value_at(seats[i], "hasPower"@)),
        ),
    )
}

/// The first `n` of the seats that can be booked.
pub open spec fn seat_preview(seats: Seq<json::Tree>, n: int) -> Seq<json::Tree> {
    let free = free_seats(seats);
    free.take(if free.len() < n { free.len() as int } else { n }).map_values(
        |i: int| seat_row(seats, i),
    )
}

/// What is told of a section: how many of its seats can be booked, and the first 8.
pub open spec fn section_row(i: int, sec: json::Tree, seats: Seq<json::Tree>) -> json::Tree {
    json::Tree::Obj(
        json::no_fields().push(("sectionIdx"@, json::Tree::Pos(i as u64))).push(
            ("name"@, json::Tree::Str(json::text_at(sec, "zhName"@))),
        ).push(("available"@, json::Tree::Pos(free_seats(seats).len() as u64))).push(
            ("total"@, json::Tree::Pos(seats.len() as u64)),
        ).push(("freePreview"@, json::Tree::Arr(seat_preview(seats, 8)))).push(
            (
                "previewNote"@,
                json::Tree::Str(
                    "freePreview 为空位示意（seatIdx 是全区域座位数组的真实下标，可直接用于订座）"@,
                ),
            ),
        ),
    )
}

/// The seats of one section after another.
pub open spec fn sections_plan(
    lib: json::Tree,
    floor: json::Tree,
    dc: u8,
    sections: Seq<json::Tree>,
    i: int,
    out: Seq<json::Tree>,
) -> plan::Plan
    decreases sections.len() - i,
{
    if i < 0 || i >= sections.len() {
        plan::say(
            json::Tree::Obj(
                json::no_fields().push(
                    ("library"@, json::Tree::Str(json::text_at(lib, "zhName"@))),
                ).push(("floor"@, json::Tree::Str(json::text_at(floor, "zhName"@)))).push(
                    ("dateChoice"@, json::int_tree(dc as int)),
                ).push(("sections"@, json::Tree::Arr(out))),
            ),
        )
    } else {
        plan::Plan::Call {
            ns: "library"@,
            method: "seats"@,
            args: with_choice(sections[i], dc),
            then: |r: host::Reply|
                match r {
                    Ok(v) => sections_plan(
                        lib,
                        floor,
                        dc,
                        sections,
                        i + 1,
                        out.push(section_row(i, sections[i], json::elements(v))),
                    ),
                    Err(e) => plan::fail(e),
                },
        }
    }
}

pub open spec fn seats_plan(today: Date, args: json::Tree) -> plan::Plan {
    match config::choice(today, day_named(args)) {
        Err(e) => plan::fail(e),
        Ok(dc) => plan::ask(
            "library"@,
            "list"@,
            plan::none(),
            |libs: json::Tree|
                match plan::nth(json::elements(libs), json::int_at(args, "libIdx"@)) {
                    None => plan::fail("libIdx 越界，请先 query_library"@),
                    Some(lib) => plan::ask(
                        "library"@,
                        "floors"@,
                        with_choice(json::int_tree(json::int_at(lib, "id"@) as int), dc),
                        |floors: json::Tree|
                            match plan::nth(
                                json::elements(floors),
                                json::int_at(args, "floorIdx"@),
                            ) {
                                None => plan::fail("floorIdx 越界，请先 query_library"@),
                                Some(floor) => plan::ask(
                                    "library"@,
                                    "sections"@,
                                    with_choice(floor, dc),
                                    |sections: json::Tree|
                                        sections_plan(
                                            lib,
                                            floor,
                                            dc,
                                            json::elements(sections),
                                            0,
                                            json::no_items(),
                                        ),
                                ),
                            },
                    ),
                },
        ),
    }
}

fn seat_is_free(seat: &Json) -> (r: bool)
    ensures
        r == is_free(seat@),
{
    match seat.text_option("availability") {
        Some(a) => text::same(a.as_str(), "usable"),
        None => match seat.get("valid") {
            Some(v) => match v.as_bool() {
                Some(b) => b,
                None => true,
            },
            None => true,
        },
    }
}

fn find_free(seats: &Vec<Json>) -> (r: Vec<usize>)
    ensures
        plan::places(r@) == free_seats(json::trees(seats@)),
        forall|k: int| 0 <= k < r@.len() ==> (#[trigger] r@[k]) < seats@.len(),
{
    let ghost all = json::trees(seats@);
    let mut out: Vec<usize> = Vec::new();
    let mut i: usize = 0;
    assert(all.take(0) =~= Seq::empty());
    assert(plan::places(out@) =~= Seq::empty());
    while i < seats.len()
        invariant
            i <= seats@.len(),
            all == json::trees(seats@),
            plan::places(out@) == free_seats(all.take(i as int)),
            forall|k: int| 0 <= k < out@.len() ==> (#[trigger] out@[k]) < i,
        decreases seats@.len() - i,
    {
        assert(all.take(i + 1).drop_last() =~= all.take(i as int));
        assert(all.take(i + 1).last() == seats@[i as int]@);
        if seat_is_free(&seats[i]) {
            let ghost before = out@;
            out.push(i);
            assert(plan::places(out@) =~= plan::places(before).push(i as int));
        }
        i += 1;
    }
    assert(all.take(all.len() as int) =~= all);
    out
}

fn preview_of(seats: &Vec<Json>, free: &Vec<usize>) -> (r: Json)
    requires
        plan::places(free@) == free_seats(json::trees(seats@)),
        forall|k: int| 0 <= k < free@.len() ==> (#[trigger] free@[k]) < seats@.len(),
    ensures
        r@ == json::Tree::Arr(seat_preview(json::trees(seats@), 8)),
{
    let ghost all = json::trees(seats@);
    let n = if free.len() < 8 { free.len() } else { 8 };
    let ghost wanted = seat_preview(all, 8);
    let mut list = Arr::new();
    let mut k: usize = 0;
    assert(plan::places(free@).len() == free@.len());
    assert(wanted.take(0) =~= json::no_items());
    while k < n
        invariant
            k <= n,
            n <= free@.len(),
            n == wanted.len(),
            all == json::trees(seats@),
            plan::places(free@) == free_seats(all),
            wanted == seat_preview(all, 8),
            forall|k: int| 0 <= k < free@.len() ==> (#[trigger] free@[k]) < seats@.len(),
            list@ == wanted.take(k as int),
        decreases n - k,
    {
        let i = free[k];
        let seat = &seats[i];
        assert(plan::places(free@)[k as int] == i);
        assert(all[i as int] == seat@);
        assert(wanted[k as int] == seat_row(all, i as int));
        assert(wanted.take(k + 1) =~= wanted.take(k as int).push(wanted[k as int]));
        list = list.with(
            Rec::new().count("seatIdx", i).text("zhName", seat.text("zhName").as_str()).text(
                "type",
                seat.text("type").as_str(),
            ).with("hasPower", seat.value("hasPower")).done(),
        );
        k += 1;
    }
    assert(wanted.take(n as int) =~= wanted);
    list.done()
}

fn section_of(i: usize, sec: &Json, seats: &Vec<Json>) -> (r: Json)
    ensures
        r@ == section_row(i as int, sec@, json::trees(seats@)),
{
    let free = find_free(seats);
    assert(plan::places(free@).len() == free@.len());
    assert(json::trees(seats@).len() == seats@.len());
    let preview = preview_of(seats, &free);
    Rec::new().count("sectionIdx", i).text("name", sec.text("zhName").as_str()).count(
        "available",
        free.len(),
    ).count("total", seats.len()).with("freePreview", preview).text(
        "previewNote",
        "freePreview 为空位示意（seatIdx 是全区域座位数组的真实下标，可直接用于订座）",
    ).done()
}

pub(crate) fn query_library_seats<H: Host>(
    h: &mut H,
    today: Date,
    args: &Json,
    Ghost(run): Ghost<plan::Run>,
) -> (r: Result<Json, String>)
    requires
        today.wf(),
        plan::on_way(run, old(h).log()),
        run.at == seats_plan(today, args@),
    ensures
        plan::on_way(plan::at(run, plan::end_of(r)), final(h).log()),
{
    let ghost t = run;
    let dc = match config::date_choice_on(today, named_day(args).as_str()) {
        Ok(n) => n,
        Err(e) => {
            return Err(e);
        },
    };
    let libs = match plan::host(h, "library", "list", plan::no_args(), Ghost(t)) {
        Ok(v) => v,
        Err(e) => {
            return Err(e);
        },
    };
    let ghost t = plan::next(t, Ok(libs@));
    let libs = libs.items();
    let lib = match plan::pick(&libs, args.whole("libIdx")) {
        Some(x) => x,
        None => {
            return Err("libIdx 越界，请先 query_library".to_owned());
        },
    };
    let asked = choice_args(json::whole(lib.whole("id")), dc);
    let floors = match plan::host(h, "library", "floors", asked, Ghost(t)) {
        Ok(v) => v,
        Err(e) => {
            return Err(e);
        },
    };
    let ghost t = plan::next(t, Ok(floors@));
    let floors = floors.items();
    let floor = match plan::pick(&floors, args.whole("floorIdx")) {
        Some(x) => x,
        None => {
            return Err("floorIdx 越界，请先 query_library".to_owned());
        },
    };
    let asked = choice_args(floor.clone(), dc);
    let sections = match plan::host(h, "library", "sections", asked, Ghost(t)) {
        Ok(v) => v,
        Err(e) => {
            return Err(e);
        },
    };
    let sections = sections.items();
    let ghost all = json::trees(sections@);
    let mut out = Arr::new();
    let mut i: usize = 0;
    while i < sections.len()
        invariant
            i <= sections@.len(),
            all == json::trees(sections@),
            plan::on_way(
                plan::at(run, sections_plan(lib@, floor@, dc, all, i as int, out@)),
                h.log(),
            ),
        decreases sections@.len() - i,
    {
        let ghost now = plan::at(run, sections_plan(lib@, floor@, dc, all, i as int, out@));
        assert(all[i as int] == sections@[i as int]@);
        let asked = choice_args(sections[i].clone(), dc);
        let seats = match plan::host(h, "library", "seats", asked, Ghost(now)) {
            Ok(v) => v,
            Err(e) => {
                return Err(e);
            },
        };
        let row = section_of(i, &sections[i], &seats.items());
        out = out.with(row);
        i += 1;
    }
    Ok(
        Rec::new().text("library", lib.text("zhName").as_str()).text(
            "floor",
            floor.text("zhName").as_str(),
        ).whole("dateChoice", dc as i64).with("sections", out.done()).done(),
    )
}

/// A seat, and where it is.
pub struct Seat {
    pub seat: Json,
    pub section: Json,
    pub floor: Json,
    pub library: Json,
}

pub struct SeatV {
    pub seat: json::Tree,
    pub section: json::Tree,
    pub floor: json::Tree,
    pub library: json::Tree,
}

impl View for Seat {
    type V = SeatV;

    open spec fn view(&self) -> SeatV {
        SeatV {
            seat: self.seat@,
            section: self.section@,
            floor: self.floor@,
            library: self.library@,
        }
    }
}

/// Fetches the seat that the indices name, and goes on with it.
pub open spec fn seat_plan(
    today: Date,
    args: json::Tree,
    then: spec_fn(SeatV) -> plan::Plan,
) -> plan::Plan {
    plan::ask(
        "library"@,
        "list"@,
        plan::none(),
        |libs: json::Tree|
            match plan::nth(json::elements(libs), json::int_at(args, "libIdx"@)) {
                None => plan::fail("libIdx 越界"@),
                Some(library) => match config::choice(today, day_named(args)) {
                    Err(e) => plan::fail(e),
                    Ok(dc) => plan::ask(
                        "library"@,
                        "floors"@,
                        with_choice(json::int_tree(json::int_at(library, "id"@) as int), dc),
                        |floors: json::Tree|
                            match plan::nth(
                                json::elements(floors),
                                json::int_at(args, "floorIdx"@),
                            ) {
                                None => plan::fail("floorIdx 越界"@),
                                Some(floor) => plan::ask(
                                    "library"@,
                                    "sections"@,
                                    with_choice(floor, dc),
                                    |sections: json::Tree|
                                        match plan::nth(
                                            json::elements(sections),
                                            json::int_at(args, "sectionIdx"@),
                                        ) {
                                            None => plan::fail("sectionIdx 越界"@),
                                            Some(section) => plan::ask(
                                                "library"@,
                                                "seats"@,
                                                with_choice(section, dc),
                                                |seats: json::Tree|
                                                    match plan::nth(
                                                        json::elements(seats),
                                                        json::int_at(args, "seatIdx"@),
                                                    ) {
                                                        None => plan::fail("seatIdx 越界"@),
                                                        Some(seat) => then(
                                                            SeatV { seat, section, floor, library },
                                                        ),
                                                    },
                                            ),
                                        },
                                ),
                            },
                    ),
                },
            },
    )
}

/// What follows the fetching of a seat.
pub open spec fn seat_end(r: Result<Seat, String>, then: spec_fn(SeatV) -> plan::Plan) -> plan::Plan {
    match r {
        Ok(s) => then(s@),
        Err(e) => plan::fail(e@),
    }
}

fn resolve_seat<H: Host>(
    h: &mut H,
    today: Date,
    args: &Json,
    Ghost(then): Ghost<spec_fn(SeatV) -> plan::Plan>,
    Ghost(t): Ghost<plan::Run>,
) -> (r: Result<Seat, String>)
    requires
        today.wf(),
        plan::on_way(t, old(h).log()),
        t.at == seat_plan(today, args@, then),
    ensures
        plan::on_way(plan::at(t, seat_end(r, then)), final(h).log()),
{
    let libs = match plan::host(h, "library", "list", plan::no_args(), Ghost(t)) {
        Ok(v) => v,
        Err(e) => {
            return Err(e);
        },
    };
    let ghost t = plan::next(t, Ok(libs@));
    let libs = libs.items();
    let library = match plan::pick(&libs, args.whole("libIdx")) {
        Some(x) => x,
        None => {
            return Err("libIdx 越界".to_owned());
        },
    };
    let dc = match config::date_choice_on(today, named_day(args).as_str()) {
        Ok(n) => n,
        Err(e) => {
            return Err(e);
        },
    };
    let asked = choice_args(json::whole(library.whole("id")), dc);
    let floors = match plan::host(h, "library", "floors", asked, Ghost(t)) {
        Ok(v) => v,
        Err(e) => {
            return Err(e);
        },
    };
    let ghost t = plan::next(t, Ok(floors@));
    let floors = floors.items();
    let floor = match plan::pick(&floors, args.whole("floorIdx")) {
        Some(x) => x,
        None => {
            return Err("floorIdx 越界".to_owned());
        },
    };
    let asked = choice_args(floor.clone(), dc);
    let sections = match plan::host(h, "library", "sections", asked, Ghost(t)) {
        Ok(v) => v,
        Err(e) => {
            return Err(e);
        },
    };
    let ghost t = plan::next(t, Ok(sections@));
    let sections = sections.items();
    let section = match plan::pick(&sections, args.whole("sectionIdx")) {
        Some(x) => x,
        None => {
            return Err("sectionIdx 越界".to_owned());
        },
    };
    let asked = choice_args(section.clone(), dc);
    let seats = match plan::host(h, "library", "seats", asked, Ghost(t)) {
        Ok(v) => v,
        Err(e) => {
            return Err(e);
        },
    };
    let seats = seats.items();
    match plan::pick(&seats, args.whole("seatIdx")) {
        Some(seat) => Ok(
            Seat {
                seat: seat.clone(),
                section: section.clone(),
                floor: floor.clone(),
                library: library.clone(),
            },
        ),
        None => Err("seatIdx 越界".to_owned()),
    }
}

/// How the day of a booking is told.
pub open spec fn day_label(today: Date, args: json::Tree) -> Seq<char> {
    match config::resolved(today, day_named(args)) {
        Some(n) => if n == today.number() {
            "今天"@
        } else if n == today.number() + 1 {
            "明天"@
        } else {
            date::date_at(n).text()
        },
        None => if json::i64_of(json::field(args, "dateChoice"@)) == Some(1i64) {
            "明天"@
        } else {
            "今天"@
        },
    }
}

fn label_day(today: Date, args: &Json) -> (r: String)
    requires
        today.wf(),
    ensures
        r@ == day_label(today, args@),
{
    match config::resolve_date_on(today, named_day(args).as_str()) {
        Some(d) => {
            let n = date::number_of(d) as i64 - date::number_of(today) as i64;
            if n == 0 {
                "今天".to_owned()
            } else if n == 1 {
                "明天".to_owned()
            } else {
                proof {
                    date::lemma_date_at(d);
                }
                date::date_text(d)
            }
        },
        None => {
            let tomorrow = match args.get("dateChoice") {
                Some(v) => match v.as_i64() {
                    Some(n) => n == 1,
                    None => false,
                },
                None => false,
            };
            if tomorrow {
                "明天".to_owned()
            } else {
                "今天".to_owned()
            }
        },
    }
}

pub open spec fn seat_kind(seat: json::Tree) -> Seq<char> {
    let kind = json::text_at(seat, "type"@);
    if kind.len() == 0 {
        "普通"@
    } else {
        kind
    }
}

/// What the user is shown of a seat before it is booked.
pub open spec fn seat_summary(s: SeatV, day: Seq<char>) -> Seq<char> {
    "预约图书馆座位："@ + json::text_at(s.library, "zhName"@) + json::text_at(s.floor, "zhName"@)
        + " "@ + json::text_at(s.section, "zhName"@) + " "@ + json::text_at(s.seat, "zhName"@)
        + "（"@ + day + "，座位类型 "@ + seat_kind(s.seat) + "）"@
}

/// Has the user confirm the seat.
pub open spec fn confirm_seat(today: Date, args: json::Tree) -> spec_fn(SeatV) -> plan::Plan {
    |s: SeatV|
        plan::confirm("book_library_seat"@, args, seat_summary(s, day_label(today, args)))
}

pub(crate) fn summarize_seat<H: Host>(
    h: &mut H,
    today: Date,
    args: &Json,
    Ghost(t): Ghost<plan::Run>,
) -> (r: Result<String, String>)
    requires
        today.wf(),
        plan::on_way(t, old(h).log()),
        t.at == seat_plan(today, args@, confirm_seat(today, args@)),
    ensures
        plan::on_way(
            plan::at(t, plan::summary_of("book_library_seat"@, args@, r)),
            final(h).log(),
        ),
{
    match resolve_seat(h, today, args, Ghost(confirm_seat(today, args@)), Ghost(t)) {
        Ok(s) => {
            let day = label_day(today, args);
            let mut out = text::cat3(
                "预约图书馆座位：",
                s.library.text("zhName").as_str(),
                s.floor.text("zhName").as_str(),
            );
            out.append(" ");
            out.append(s.section.text("zhName").as_str());
            out.append(" ");
            out.append(s.seat.text("zhName").as_str());
            out.append("（");
            out.append(day.as_str());
            out.append("，座位类型 ");
            let kind = s.seat.text("type");
            if kind.as_str().is_empty() {
                out.append("普通");
            } else {
                out.append(kind.as_str());
            }
            out.append("）");
            Ok(out)
        },
        Err(e) => Err(e),
    }
}

/// The host says that a seat was booked.
pub open spec fn is_booked(r: json::Tree) -> bool {
    json::i64_of(json::field(r, "status"@)) == Some(1i64) || text::occurs(
        json::text_at(r, "msg"@),
        "成功"@,
    )
}

/// The text under a name, or the whole value as JSON where there is none.
pub open spec fn text_or_raw(v: json::Tree, key: Seq<char>) -> Seq<char> {
    let x = json::text_at(v, key);
    if x.len() == 0 {
        json::json_text(v)
    } else {
        x
    }
}

/// What is told of a booking that was made.
pub open spec fn receipt(s: SeatV, r: json::Tree) -> json::Tree {
    let d = json::value_at(r, "data"@);
    json::Tree::Obj(
        json::no_fields().push(("success"@, json::Tree::Bool(true))).push(
            ("seat"@, json::Tree::Str(json::text_at(s.seat, "zhName"@))),
        ).push(("section"@, json::Tree::Str(json::text_at(s.section, "zhName"@)))).push(
            (
                "time"@,
                json::Tree::Str(
                    match json::str_of(json::field(d, "starttime"@)) {
                        Some(x) => "今天 "@ + x,
                        None => "今天"@,
                    },
                ),
            ),
        ).push(
            (
                "status"@,
                json::Tree::Str(
                    match json::str_of(json::field(d, "statusName"@)) {
                        Some(x) => x,
                        None => "预约成功"@,
                    },
                ),
            ),
        ).push(
            ("hint"@, json::Tree::Str("已同步到预约记录；可用 my_library_bookings 复核"@)),
        ),
    )
}

/// Books the seat: the object that the host gave for it, in its section, on the day.
pub open spec fn book_seat(today: Date, args: json::Tree) -> spec_fn(SeatV) -> plan::Plan {
    |s: SeatV|
        match config::choice(today, day_named(args)) {
            Err(e) => plan::fail(e),
            Ok(dc) => plan::ask(
                "library"@,
                "book"@,
                json::Tree::Arr(
                    json::no_items().push(s.seat).push(
                        json::int_tree(json::int_at(s.section, "id"@) as int),
                    ).push(json::int_tree(dc as int)),
                ),
                |r: json::Tree|
                    if is_booked(r) {
                        plan::say(receipt(s, r))
                    } else {
                        plan::fail("预约未成功："@ + text_or_raw(r, "msg"@))
                    },
            ),
        }
}

fn s_or_raw(v: &Json, key: &str) -> (r: String)
    ensures
        r@ == text_or_raw(v@, key@),
{
    let x = v.text(key);
    if x.as_str().is_empty() {
        json::print(v)
    } else {
        x
    }
}

fn receipt_of(s: &Seat, r: &Json) -> (out: Json)
    ensures
        out@ == receipt(s@, r@),
{
    let d = r.value("data");
    let time = match d.text_option("starttime") {
        Some(x) => text::cat("今天 ", x.as_str()),
        None => "今天".to_owned(),
    };
    let status = match d.text_option("statusName") {
        Some(x) => x,
        None => "预约成功".to_owned(),
    };
    Rec::new().flag("success", true).text("seat", s.seat.text("zhName").as_str()).text(
        "section",
        s.section.text("zhName").as_str(),
    ).text("time", time.as_str()).text("status", status.as_str()).text(
        "hint",
        "已同步到预约记录；可用 my_library_bookings 复核",
    ).done()
}

pub(crate) fn book_library_seat<H: Host>(
    h: &mut H,
    today: Date,
    args: &Json,
    Ghost(t): Ghost<plan::Run>,
) -> (r: Result<Json, String>)
    requires
        today.wf(),
        plan::on_way(t, old(h).log()),
        t.at == seat_plan(today, args@, book_seat(today, args@)),
    ensures
        plan::on_way(plan::at(t, plan::end_of(r)), final(h).log()),
{
    let ghost then = book_seat(today, args@);
    let s = match resolve_seat(h, today, args, Ghost(then), Ghost(t)) {
        Ok(s) => s,
        Err(e) => {
            return Err(e);
        },
    };
    let ghost t = plan::at(t, then(s@));
    let dc = match config::date_choice_on(today, named_day(args).as_str()) {
        Ok(n) => n,
        Err(e) => {
            return Err(e);
        },
    };
    let asked = Arr::new().with(s.seat.clone()).whole(s.section.whole("id")).whole(dc as i64).done();
    let r = match plan::host(h, "library", "book", asked, Ghost(t)) {
        Ok(v) => v,
        Err(e) => {
            return Err(e);
        },
    };
    let status = match r.get("status") {
        Some(v) => match v.as_i64() {
            Some(n) => n == 1,
            None => false,
        },
        None => false,
    };
    if status || text::contains(r.text("msg").as_str(), "成功") {
        Ok(receipt_of(&s, &r))
    } else {
        Err(text::cat("预约未成功：", s_or_raw(&r, "msg").as_str()))
    }
}

/// What the user is shown of a booking before it is cancelled.
pub open spec fn cancel_summary(rec: json::Tree) -> Seq<char> {
    "取消图书馆座位预约："@ + json::text_at(rec, "pos"@) + " @ "@ + json::text_at(rec, "time"@)
        + "（"@ + json::text_at(rec, "status"@) + "）"@
}

/// Has the user confirm that a booking is to be cancelled.
pub open spec fn confirm_cancel_plan(args: json::Tree) -> plan::Plan {
    plan::ask(
        "library"@,
        "records"@,
        plan::none(),
        |recs: json::Tree|
            match plan::nth(json::elements(recs), json::int_at(args, "bookingIdx"@)) {
                None => plan::fail("预约记录序号不存在，请先 my_library_bookings 查询"@),
                Some(rec) => plan::confirm("cancel_library_booking"@, args, cancel_summary(rec)),
            },
    )
}

pub(crate) fn summarize_cancel<H: Host>(
    h: &mut H,
    args: &Json,
    Ghost(t): Ghost<plan::Run>,
) -> (r: Result<String, String>)
    requires
        plan::on_way(t, old(h).log()),
        t.at == confirm_cancel_plan(args@),
    ensures
        plan::on_way(
            plan::at(t, plan::summary_of("cancel_library_booking"@, args@, r)),
            final(h).log(),
        ),
{
    let recs = match plan::host(h, "library", "records", plan::no_args(), Ghost(t)) {
        Ok(v) => v,
        Err(e) => {
            return Err(e);
        },
    };
    let items = recs.items();
    match plan::pick(&items, args.whole("bookingIdx")) {
        Some(rec) => {
            let mut s = text::cat3("取消图书馆座位预约：", rec.text("pos").as_str(), " @ ");
            s.append(rec.text("time").as_str());
            s.append("（");
            s.append(rec.text("status").as_str());
            s.append("）");
            Ok(s)
        },
        None => Err("预约记录序号不存在，请先 my_library_bookings 查询".to_owned()),
    }
}

/// What a booking is cancelled by: its `delId`, a text or a number; its `id` where it
/// has none.
pub open spec fn cancel_key(rec: json::Tree) -> Seq<char> {
    let del = json::field(rec, "delId"@);
    let key = match json::str_of(del) {
        Some(s) => s,
        None => match json::i64_of(del) {
            Some(n) => text::signed_decimal(n as int),
            None => Seq::empty(),
        },
    };
    if key.len() > 0 {
        key
    } else {
        json::text_at(rec, "id"@)
    }
}

/// What is said where a cancelling was refused: a limit that was reached is explained.
pub open spec fn cancel_refusal(rec: json::Tree, e: Seq<char>) -> Seq<char> {
    if text::occurs(e, "上限"@) || text::occurs(e, "次数"@) || text::occurs(e, "频繁"@) {
        "今日取消次数已达上限（座位系统限制每个图书馆每自然日取消 1 次）。"@ + json::text_at(
            rec,
            "pos"@,
        )
            + " 的预约仍在生效，明天 0 点后可再取消，或到图书馆座位系统「我的中心」手动处理。"@
    } else {
        e
    }
}

pub open spec fn cancel_plan(args: json::Tree) -> plan::Plan {
    plan::ask(
        "library"@,
        "records"@,
        plan::none(),
        |recs: json::Tree|
            match plan::nth(json::elements(recs), json::int_at(args, "bookingIdx"@)) {
                None => plan::fail("bookingIdx 越界"@),
                Some(rec) => plan::Plan::Call {
                    ns: "library"@,
                    method: "cancel"@,
                    args: json::Tree::Arr(
                        json::no_items().push(json::Tree::Str(cancel_key(rec))),
                    ),
                    then: |r: host::Reply|
                        match r {
                            Ok(_) => plan::say(
                                json::Tree::Obj(
                                    json::no_fields().push(
                                        ("success"@, json::Tree::Bool(true)),
                                    ).push(
                                        (
                                            "cancelled"@,
                                            json::Tree::Str(json::text_at(rec, "pos"@)),
                                        ),
                                    ).push(
                                        (
                                            "hint"@,
                                            json::Tree::Str("可用 my_library_bookings 复核"@),
                                        ),
                                    ),
                                ),
                            ),
                            Err(e) => plan::fail(cancel_refusal(rec, e)),
                        },
                },
            },
    )
}

fn key_of(rec: &Json) -> (r: String)
    ensures
        r@ == cancel_key(rec@),
{
    let key = match rec.get("delId") {
        Some(v) => match v.as_str() {
            Some(s) => s.to_owned(),
            None => match v.as_i64() {
                Some(n) => text::write_i64(n),
                None => String::new(),
            },
        },
        None => String::new(),
    };
    if key.as_str().is_empty() {
        rec.text("id")
    } else {
        key
    }
}

fn refusal_of(rec: &Json, e: String) -> (r: String)
    ensures
        r@ == cancel_refusal(rec@, e@),
{
    let s = e.as_str();
    if text::contains(s, "上限") || text::contains(s, "次数") || text::contains(s, "频繁") {
        text::cat3(
            "今日取消次数已达上限（座位系统限制每个图书馆每自然日取消 1 次）。",
            rec.text("pos").as_str(),
            " 的预约仍在生效，明天 0 点后可再取消，或到图书馆座位系统「我的中心」手动处理。",
        )
    } else {
        e
    }
}

pub(crate) fn cancel_library_booking<H: Host>(
    h: &mut H,
    args: &Json,
    Ghost(t): Ghost<plan::Run>,
) -> (r: Result<Json, String>)
    requires
        plan::on_way(t, old(h).log()),
        t.at == cancel_plan(args@),
    ensures
        plan::on_way(plan::at(t, plan::end_of(r)), final(h).log()),
{
    let recs = match plan::host(h, "library", "records", plan::no_args(), Ghost(t)) {
        Ok(v) => v,
        Err(e) => {
            return Err(e);
        },
    };
    let ghost t = plan::next(t, Ok(recs@));
    let items = recs.items();
    let rec = match plan::pick(&items, args.whole("bookingIdx")) {
        Some(x) => x,
        None => {
            return Err("bookingIdx 越界".to_owned());
        },
    };
    let asked = Arr::new().text(key_of(rec).as_str()).done();
    match plan::host(h, "library", "cancel", asked, Ghost(t)) {
        Ok(_) => Ok(
            Rec::new().flag("success", true).text("cancelled", rec.text("pos").as_str()).text(
                "hint",
                "可用 my_library_bookings 复核",
            ).done(),
        ),
        Err(e) => Err(refusal_of(rec, e)),
    }
}

} // verus!
