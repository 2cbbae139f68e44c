//! What the tools tell and do about the library's seats and rooms.

use crate::config;
use crate::date;
use crate::date::Date;
use crate::host;
use crate::json;
use crate::json::names;
use crate::text;
use crate::tools;
use crate::tools::library;
use crate::tools::plan;
use crate::tools::rooms;
use crate::tools::told;
use vstd::prelude::*;

verus! {

/// After these exchanges the tool is done, and has come to `end`.
pub open spec fn ends(
    today: Date,
    name: Seq<char>,
    args: json::Tree,
    confirmed: bool,
    es: Seq<host::Exchange>,
    end: plan::Outcome,
) -> bool {
    plan::rest(tools::tool_plan(today, name, args, confirmed), es) == Some(plan::Plan::Done(end))
}

/// What a tool that tells `v` comes to.
pub open spec fn tells(v: json::Tree) -> plan::Outcome {
    Ok(plan::OutV::Text(json::json_text(v)))
}

/// `x` is the whole number that `w` has under `l`, zero where it has none.
pub open spec fn is_number_at(x: json::Tree, w: json::Tree, l: Seq<char>) -> bool {
    match json::field(w, l) {
        Some(json::Tree::Pos(n)) => x == json::Tree::Pos(
            if n <= i64::MAX {
                n
            } else {
                0
            },
        ),
        Some(json::Tree::Neg(n)) => n < 0 && x == json::Tree::Neg(n),
        _ => x == json::Tree::Pos(0),
    }
}

/// The arguments name the `i`-th item under that key.
pub open spec fn picks(args: json::Tree, key: Seq<char>, items: Seq<json::Tree>, i: int) -> bool {
    &&& 0 <= i < items.len()
    &&& i <= i64::MAX
    &&& json::field(args, key) == Some(json::Tree::Pos(i as u64))
}

/// An error of the host, as it is told: one that the user can mend says how.
pub open spec fn told_error(e: Seq<char>) -> Seq<char> {
    if text::occurs(e, "会话未能建立"@) {
        "登录会话已失效：请打开 OneTHU 重新登录后再试。"@
    } else if text::occurs(e, "未获授权"@) {
        e + "（请在插件管理页重装/检查权限）"@
    } else {
        e
    }
}

/// A tool whose first call fails fails with that error.
pub proof fn law_a_failed_call_is_told(
    today: Date,
    name: Seq<char>,
    args: json::Tree,
    confirmed: bool,
    ns: Seq<char>,
    method: Seq<char>,
    given: json::Tree,
    e: Seq<char>,
)
    requires
        plan::rest(
            tools::tool_plan(today, name, args, confirmed),
            Seq::empty().push(
                host::Exchange::Call { ns, method, args: given, reply: Err(e) },
            ),
        ) is Some,
    ensures
        ends(
            today,
            name,
            args,
            confirmed,
            Seq::empty().push(host::Exchange::Call { ns, method, args: given, reply: Err(e) }),
            Err(told_error(e)),
        ),
{
    told::lemma_next(
        tools::tool_plan(today, name, args, confirmed),
        Seq::empty(),
        host::Exchange::Call { ns, method, args: given, reply: Err(e) },
    );
}

/// The call for the floors of a library.
pub open spec fn floors_call(id: json::Tree, dc: u8, reply: host::Reply) -> host::Exchange {
    host::Exchange::Call {
        ns: "library"@,
        method: "floors"@,
        args: json::Tree::Arr(Seq::empty().push(id).push(json::Tree::Pos(dc as u64))),
        reply,
    }
}

/// The row is that of the `j`-th floor, with how many of its seats are free.
pub open spec fn is_floor(row: json::Tree, floor: json::Tree, j: int) -> bool {
    &&& json::field(row, "floorIdx"@) == Some(json::Tree::Pos(j as u64))
    &&& told::text_from(row, "name"@, floor, "zhName"@)
    &&& told::number_from(row, "available"@, floor, "available"@)
    &&& told::number_from(row, "total"@, floor, "total"@)
}

/// The row is that of the `i`-th library: with its floors where the host has them, with
/// the error where it has not.
pub open spec fn is_library(row: json::Tree, lib: json::Tree, i: int, reply: host::Reply) -> bool {
    &&& json::field(row, "libIdx"@) == Some(json::Tree::Pos(i as u64))
    &&& told::text_from(row, "name"@, lib, "zhName"@)
    &&& match reply {
        Ok(floors) => {
            &&& told::number_from(row, "id"@, lib, "id"@)
            &&& json::field(row, "floors"@) matches Some(json::Tree::Arr(rows)) && rows.len()
                == json::elements(floors).len() && forall|j: int|
                0 <= j < rows.len() ==> is_floor(#[trigger] rows[j], json::elements(floors)[j], j)
        },
        Err(e) => json::field(row, "error"@) == Some(json::Tree::Str(told_error(e))),
    }
}

/// The calls of a survey of libraries: for the list, then for the floors of each.
pub open spec fn survey_calls(
    libs: Seq<json::Tree>,
    ids: Seq<json::Tree>,
    dc: u8,
    replies: Seq<host::Reply>,
) -> Seq<host::Exchange> {
    Seq::new(
        replies.len() + 1,
        |k: int|
            if k == 0 {
                told::saw("library"@, "list"@, Seq::empty(), json::Tree::Arr(libs))
            } else {
                floors_call(ids[k - 1], dc, replies[k - 1])
            },
    )
}

/// The rows of a survey so far.
pub open spec fn survey_rows(libs: Seq<json::Tree>, replies: Seq<host::Reply>, n: nat) -> Seq<
    json::Tree,
> {
    Seq::new(n, |k: int| library::library_row(k, libs[k], plan::told(replies[k])))
}

proof fn lemma_survey(
    today: Date,
    args: json::Tree,
    dc: u8,
    libs: Seq<json::Tree>,
    ids: Seq<json::Tree>,
    replies: Seq<host::Reply>,
    n: nat,
)
    requires
        config::choice(today, library::day_named(args)) == Ok::<u8, Seq<char>>(dc),
        ids.len() == libs.len(),
        replies.len() == libs.len(),
        n <= libs.len(),
        forall|k: int| 0 <= k < ids.len() ==> is_number_at(#[trigger] ids[k], libs[k], "id"@),
    ensures
        plan::rest(
            tools::tool_plan(today, "query_library"@, args, false),
            survey_calls(libs, ids, dc, replies).take(n as int + 1),
        ) == Some(
            library::survey_plan(libs, dc, n as int, survey_rows(libs, replies, n)),
        ),
    decreases n,
{
    names::lemma_apart();
    let p = tools::tool_plan(today, "query_library"@, args, false);
    let es = survey_calls(libs, ids, dc, replies);
    if n == 0 {
        assert(es.take(1) =~= Seq::empty().push(es[0]));
        told::lemma_next(p, Seq::empty(), es[0]);
        assert(survey_rows(libs, replies, 0) =~= json::no_items());
    } else {
        let m = (n - 1) as nat;
        lemma_survey(today, args, dc, libs, ids, replies, m);
        assert(es.take(n as int + 1) =~= es.take(n as int).push(es[n as int]));
        told::lemma_next(p, es.take(n as int), es[n as int]);
        assert(is_number_at(ids[m as int], libs[m as int], "id"@));
        assert(survey_rows(libs, replies, n) =~= survey_rows(libs, replies, m).push(
            library::library_row(m as int, libs[m as int], plan::told(replies[m as int])),
        ));
        assert(library::with_choice(
            json::int_tree(json::int_at(libs[m as int], "id"@) as int),
            dc,
        ) == json::Tree::Arr(Seq::empty().push(ids[m as int]).push(json::Tree::Pos(dc as u64))));
    }
}

/// Every library is surveyed for the day that is asked for, in the order of the host's
/// list; each is told with its floors and their free seats, and one whose floors the host
/// does not give is told with the error, without ending the survey.
pub proof fn law_every_library_is_surveyed(
    today: Date,
    args: json::Tree,
    dc: u8,
    libs: Seq<json::Tree>,
    ids: Seq<json::Tree>,
    replies: Seq<host::Reply>,
) -> (v: json::Tree)
    requires
        config::choice(today, library::day_named(args)) == Ok::<u8, Seq<char>>(dc),
        ids.len() == libs.len(),
        replies.len() == libs.len(),
        forall|k: int| 0 <= k < ids.len() ==> is_number_at(#[trigger] ids[k], libs[k], "id"@),
    ensures
        ends(
            today,
            "query_library"@,
            args,
            false,
            survey_calls(libs, ids, dc, replies),
            tells(v),
        ),
        json::field(v, "dateChoice"@) == Some(json::Tree::Pos(dc as u64)),
        json::field(v, "libraries"@) matches Some(json::Tree::Arr(rows)) && rows.len() == libs.len()
            && forall|k: int|
            0 <= k < rows.len() ==> #[trigger] is_library(rows[k], libs[k], k, replies[k]),
{
    names::lemma_apart();
    reveal_with_fuel(json::field_from, 5);
    let n = libs.len();
    lemma_survey(today, args, dc, libs, ids, replies, n);
    let es = survey_calls(libs, ids, dc, replies);
    assert(es.take(n as int + 1) =~= es);
    let rows = survey_rows(libs, replies, n);
    let v = json::Tree::Obj(
        json::no_fields().push(("dateChoice"@, json::int_tree(dc as int))).push(
            ("libraries"@, json::Tree::Arr(rows)),
        ),
    );
    assert forall|k: int| 0 <= k < rows.len() implies #[trigger] is_library(
        rows[k],
        libs[k],
        k,
        replies[k],
    ) by {
        assert(is_number_at(ids[k], libs[k], "id"@));
        if let Ok(floors) = replies[k] {
            let all = json::elements(floors);
            let list = all.map(library::floor_row());
            assert forall|j: int| 0 <= j < list.len() implies is_floor(#[trigger] list[j], all[j], j) by {
                assert(list[j] == library::floor_row()(j, all[j]));
            }
        }
    }
    v
}

/// A seat that can be had: the host says so, or where it says nothing of that sort, does
/// not call it invalid.
pub open spec fn can_be_had(seat: json::Tree) -> bool {
    match json::field(seat, "availability"@) {
        Some(json::Tree::Str(a)) => a == "usable"@,
        _ => json::field(seat, "valid"@) != Some(json::Tree::Bool(false)),
    }
}

/// The seats that can be had.
pub open spec fn to_be_had() -> spec_fn(json::Tree) -> bool {
    |x: json::Tree| can_be_had(x)
}

proof fn lemma_free(seats: Seq<json::Tree>)
    ensures
        forall|j: int|
            0 <= j < library::free_seats(seats).len() ==> 0 <= (#[trigger] library::free_seats(
                seats,
            )[j]) < seats.len() && can_be_had(seats[library::free_seats(seats)[j]]),
        forall|j: int, k: int|
            0 <= j < k < library::free_seats(seats).len() ==> (#[trigger] library::free_seats(
                seats,
            )[j]) < (#[trigger] library::free_seats(seats)[k]),
        forall|i: int|
            0 <= i < seats.len() && can_be_had(#[trigger] seats[i]) ==> library::free_seats(
                seats,
            ).contains(i),
        library::free_seats(seats).len() == seats.filter(to_be_had()).len(),
    decreases seats.len(),
{
    reveal(Seq::filter);
    if seats.len() > 0 {
        let before = seats.drop_last();
        lemma_free(before);
        let a = library::free_seats(before);
        let b = library::free_seats(seats);
        assert forall|j: int| 0 <= j < b.len() implies 0 <= (#[trigger] b[j]) < seats.len()
            && can_be_had(seats[b[j]]) by {
            if j < a.len() {
                assert(b[j] == a[j]);
                assert(before[a[j]] == seats[a[j]]);
            }
        }
        assert forall|i: int| 0 <= i < seats.len() && can_be_had(#[trigger] seats[i]) implies b.contains(i) by {
            if i < seats.len() - 1 {
                assert(before[i] == seats[i]);
                let j = choose|j: int| 0 <= j < a.len() && a[j] == i;
                assert(b[j] == i);
            } else {
                assert(b[b.len() - 1] == i);
            }
        }
    }
}

/// The rows are the first of the seats that can be had, up to `n` of them: each with its
/// own place among all the seats.
pub open spec fn are_first_free(rows: Seq<json::Tree>, at: Seq<int>, seats: Seq<json::Tree>, n: int) -> bool {
    &&& rows.len() == at.len()
    &&& rows.len() <= n
    &&& forall|j: int, k: int| 0 <= j < k < at.len() ==> (#[trigger] at[j]) < (#[trigger] at[k])
    &&& forall|j: int|
        0 <= j < rows.len() ==> {
            let row = #[trigger] rows[j];
            &&& 0 <= at[j] < seats.len()
            &&& can_be_had(seats[at[j]])
            &&& json::field(row, "seatIdx"@) == Some(json::Tree::Pos(at[j] as u64))
            &&& told::text_from(row, "zhName"@, seats[at[j]], "zhName"@)
            &&& told::text_from(row, "type"@, seats[at[j]], "type"@)
            &&& told::value_from(row, "hasPower"@, seats[at[j]], "hasPower"@)
        }
    &&& forall|i: int|
        0 <= i < seats.len() && can_be_had(#[trigger] seats[i]) ==> at.contains(i) || (at.len() == n
            && n > 0 && i > at.last())
}

/// The row is that of the `i`-th section: its name, how many of its seats can be had and
/// how many it has, and the first eight that can be had.
pub open spec fn is_section(row: json::Tree, sec: json::Tree, i: int, seats: Seq<json::Tree>) -> bool {
    &&& json::field(row, "sectionIdx"@) == Some(json::Tree::Pos(i as u64))
    &&& told::text_from(row, "name"@, sec, "zhName"@)
    &&& json::field(row, "available"@) == Some(
        json::Tree::Pos(seats.filter(to_be_had()).len() as u64),
    )
    &&& json::field(row, "total"@) == Some(json::Tree::Pos(seats.len() as u64))
    &&& json::field(row, "previewNote"@) == Some(
        json::Tree::Str(
            "freePreview 为空位示意（seatIdx 是全区域座位数组的真实下标，可直接用于订座）"@,
        ),
    )
    &&& json::field(row, "freePreview"@) matches Some(json::Tree::Arr(rows)) && is_preview(
        rows,
        seats,
    )
}

/// The rows are the first eight of the seats that can be had.
pub open spec fn is_preview(rows: Seq<json::Tree>, seats: Seq<json::Tree>) -> bool {
    exists|at: Seq<int>| are_first_free(rows, at, seats, 8)
}

/// A section tells which of its seats can be had.
pub proof fn law_a_section_tells_its_free_seats(i: int, sec: json::Tree, seats: Seq<json::Tree>)
    ensures
        is_section(library::section_row(i, sec, seats), sec, i, seats),
{
    names::lemma_apart();
    reveal_with_fuel(json::field_from, 7);
    lemma_free(seats);
    let row = library::section_row(i, sec, seats);
    let free = library::free_seats(seats);
    let n = if free.len() < 8 {
        free.len() as int
    } else {
        8
    };
    let at = free.take(n);
    let rows = library::seat_preview(seats, 8);
    assert forall|k: int| 0 <= k < seats.len() && can_be_had(#[trigger] seats[k]) implies at.contains(
        k,
    ) || (at.len() == 8 && k > at.last()) by {
        let j = choose|j: int| 0 <= j < free.len() && free[j] == k;
        if j < n {
            assert(at[j] == k);
        } else {
            assert(free[n - 1] < free[j]);
            assert(at.last() == free[n - 1]);
        }
    }
    assert forall|j: int| 0 <= j < rows.len() implies {
        let row = #[trigger] rows[j];
        &&& 0 <= at[j] < seats.len()
        &&& can_be_had(seats[at[j]])
        &&& json::field(row, "seatIdx"@) == Some(json::Tree::Pos(at[j] as u64))
        &&& told::text_from(row, "zhName"@, seats[at[j]], "zhName"@)
        &&& told::text_from(row, "type"@, seats[at[j]], "type"@)
        &&& told::value_from(row, "hasPower"@, seats[at[j]], "hasPower"@)
    } by {
        assert(at[j] == free[j]);
        assert(rows[j] == library::seat_row(seats, at[j]));
    }
    assert forall|j: int, k: int| 0 <= j < k < at.len() implies (#[trigger] at[j]) < (
    #[trigger] at[k]) by {
        assert(free[j] < free[k]);
    }
    assert(are_first_free(rows, at, seats, 8));
    assert(is_preview(rows, seats));
}

/// The calls that lead to the seats of a floor: for the list, for the floors of the
/// library, for the sections of the floor, then for the seats of each section.
pub open spec fn seats_calls(
    libs: Seq<json::Tree>,
    id: json::Tree,
    dc: u8,
    floors: Seq<json::Tree>,
    floor: json::Tree,
    sections: Seq<json::Tree>,
    seats: Seq<Seq<json::Tree>>,
) -> Seq<host::Exchange> {
    let day = json::Tree::Pos(dc as u64);
    Seq::new(
        seats.len() + 3,
        |k: int|
            if k == 0 {
                told::saw("library"@, "list"@, Seq::empty(), json::Tree::Arr(libs))
            } else if k == 1 {
                floors_call(id, dc, Ok(json::Tree::Arr(floors)))
            } else if k == 2 {
                told::saw(
                    "library"@,
                    "sections"@,
                    Seq::empty().push(floor).push(day),
                    json::Tree::Arr(sections),
                )
            } else {
                told::saw(
                    "library"@,
                    "seats"@,
                    Seq::empty().push(sections[k - 3]).push(day),
                    json::Tree::Arr(seats[k - 3]),
                )
            },
    )
}

/// The rows of the sections so far.
pub open spec fn section_rows(sections: Seq<json::Tree>, seats: Seq<Seq<json::Tree>>, n: nat) -> Seq<
    json::Tree,
> {
    Seq::new(n, |k: int| library::section_row(k, sections[k], seats[k]))
}

proof fn lemma_sections(
    today: Date,
    args: json::Tree,
    dc: u8,
    libs: Seq<json::Tree>,
    li: int,
    id: json::Tree,
    floors: Seq<json::Tree>,
    fi: int,
    sections: Seq<json::Tree>,
    seats: Seq<Seq<json::Tree>>,
    n: nat,
)
    requires
        config::choice(today, library::day_named(args)) == Ok::<u8, Seq<char>>(dc),
        picks(args, "libIdx"@, libs, li),
        picks(args, "floorIdx"@, floors, fi),
        is_number_at(id, libs[li], "id"@),
        seats.len() == sections.len(),
        n <= sections.len(),
    ensures
        plan::rest(
            tools::tool_plan(today, "query_library_seats"@, args, false),
            seats_calls(libs, id, dc, floors, floors[fi], sections, seats).take(n as int + 3),
        ) == Some(
            library::sections_plan(
                libs[li],
                floors[fi],
                dc,
                sections,
                n as int,
                section_rows(sections, seats, n),
            ),
        ),
    decreases n,
{
    names::lemma_apart();
    let p = tools::tool_plan(today, "query_library_seats"@, args, false);
    let es = seats_calls(libs, id, dc, floors, floors[fi], sections, seats);
    if n == 0 {
        let none = Seq::<host::Exchange>::empty();
        assert(es.take(3) =~= none.push(es[0]).push(es[1]).push(es[2]));
        assert(library::with_choice(json::int_tree(json::int_at(libs[li], "id"@) as int), dc)
            == json::Tree::Arr(Seq::empty().push(id).push(json::Tree::Pos(dc as u64))));
        told::lemma_next(p, none, es[0]);
        told::lemma_next(p, none.push(es[0]), es[1]);
        told::lemma_next(p, none.push(es[0]).push(es[1]), es[2]);
        assert(section_rows(sections, seats, 0) =~= json::no_items());
    } else {
        let m = (n - 1) as nat;
        lemma_sections(today, args, dc, libs, li, id, floors, fi, sections, seats, m);
        assert(es.take(n as int + 3) =~= es.take(m as int + 3).push(es[m as int + 3]));
        told::lemma_next(p, es.take(m as int + 3), es[m as int + 3]);
        assert(section_rows(sections, seats, n) =~= section_rows(sections, seats, m).push(
            library::section_row(m as int, sections[m as int], seats[m as int]),
        ));
    }
}

/// The seats of the floor that is picked are told section by section, for the day that
/// is asked for.
pub proof fn law_every_section_is_told(
    today: Date,
    args: json::Tree,
    dc: u8,
    libs: Seq<json::Tree>,
    li: int,
    id: json::Tree,
    floors: Seq<json::Tree>,
    fi: int,
    sections: Seq<json::Tree>,
    seats: Seq<Seq<json::Tree>>,
) -> (v: json::Tree)
    requires
        config::choice(today, library::day_named(args)) == Ok::<u8, Seq<char>>(dc),
        picks(args, "libIdx"@, libs, li),
        picks(args, "floorIdx"@, floors, fi),
        is_number_at(id, libs[li], "id"@),
        seats.len() == sections.len(),
    ensures
        ends(
            today,
            "query_library_seats"@,
            args,
            false,
            seats_calls(libs, id, dc, floors, floors[fi], sections, seats),
            tells(v),
        ),
        told::text_from(v, "library"@, libs[li], "zhName"@),
        told::text_from(v, "floor"@, floors[fi], "zhName"@),
        json::field(v, "dateChoice"@) == Some(json::Tree::Pos(dc as u64)),
        json::field(v, "sections"@) matches Some(json::Tree::Arr(rows)) && rows.len()
            == sections.len() && forall|k: int|
            0 <= k < rows.len() ==> #[trigger] is_section(rows[k], sections[k], k, seats[k]),
{
    names::lemma_apart();
    reveal_with_fuel(json::field_from, 5);
    let n = sections.len();
    lemma_sections(today, args, dc, libs, li, id, floors, fi, sections, seats, n);
    let es = seats_calls(libs, id, dc, floors, floors[fi], sections, seats);
    assert(es.take(n as int + 3) =~= es);
    let rows = section_rows(sections, seats, n);
    assert forall|k: int| 0 <= k < rows.len() implies #[trigger] is_section(
        rows[k],
        sections[k],
        k,
        seats[k],
    ) by {
        law_a_section_tells_its_free_seats(k, sections[k], seats[k]);
    }
    json::Tree::Obj(
        json::no_fields().push(("library"@, json::Tree::Str(json::text_at(libs[li], "zhName"@)))).push(
            ("floor"@, json::Tree::Str(json::text_at(floors[fi], "zhName"@))),
        ).push(("dateChoice"@, json::int_tree(dc as int))).push(
            ("sections"@, json::Tree::Arr(rows)),
        ),
    )
}

/// The calls that lead to a seat.
pub open spec fn seat_calls(
    libs: Seq<json::Tree>,
    id: json::Tree,
    dc: u8,
    floors: Seq<json::Tree>,
    floor: json::Tree,
    sections: Seq<json::Tree>,
    section: json::Tree,
    seats: Seq<json::Tree>,
) -> Seq<host::Exchange> {
    let day = json::Tree::Pos(dc as u64);
    Seq::empty().push(told::saw("library"@, "list"@, Seq::empty(), json::Tree::Arr(libs))).push(
        floors_call(id, dc, Ok(json::Tree::Arr(floors))),
    ).push(
        told::saw(
            "library"@,
            "sections"@,
            Seq::empty().push(floor).push(day),
            json::Tree::Arr(sections),
        ),
    ).push(
        told::saw(
            "library"@,
            "seats"@,
            Seq::empty().push(section).push(day),
            json::Tree::Arr(seats),
        ),
    )
}

/// A seat by its place in each of the host's lists.
pub struct SeatAt {
    pub libs: Seq<json::Tree>,
    pub li: int,
    pub id: json::Tree,
    pub floors: Seq<json::Tree>,
    pub fi: int,
    pub sections: Seq<json::Tree>,
    pub si: int,
    pub seats: Seq<json::Tree>,
    pub ki: int,
}

/// The arguments name that seat.
pub open spec fn names_seat(args: json::Tree, w: SeatAt) -> bool {
    &&& picks(args, "libIdx"@, w.libs, w.li)
    &&& picks(args, "floorIdx"@, w.floors, w.fi)
    &&& picks(args, "sectionIdx"@, w.sections, w.si)
    &&& picks(args, "seatIdx"@, w.seats, w.ki)
    &&& is_number_at(w.id, w.libs[w.li], "id"@)
}

pub open spec fn calls_to(w: SeatAt, dc: u8) -> Seq<host::Exchange> {
    seat_calls(
        w.libs,
        w.id,
        dc,
        w.floors,
        w.floors[w.fi],
        w.sections,
        w.sections[w.si],
        w.seats,
    )
}

proof fn lemma_seat(
    today: Date,
    args: json::Tree,
    confirmed: bool,
    dc: u8,
    w: SeatAt,
    then: spec_fn(library::SeatV) -> plan::Plan,
)
    requires
        config::choice(today, library::day_named(args)) == Ok::<u8, Seq<char>>(dc),
        names_seat(args, w),
        tools::tool_plan(today, "book_library_seat"@, args, confirmed) == library::seat_plan(
            today,
            args,
            then,
        ),
    ensures
        plan::rest(
            tools::tool_plan(today, "book_library_seat"@, args, confirmed),
            calls_to(w, dc),
        ) == Some(
            then(
                library::SeatV {
                    seat: w.seats[w.ki],
                    section: w.sections[w.si],
                    floor: w.floors[w.fi],
                    library: w.libs[w.li],
                },
            ),
        ),
{
    let p = library::seat_plan(today, args, then);
    let none = Seq::<host::Exchange>::empty();
    let es = calls_to(w, dc);
    assert(library::with_choice(json::int_tree(json::int_at(w.libs[w.li], "id"@) as int), dc)
        == json::Tree::Arr(Seq::empty().push(w.id).push(json::Tree::Pos(dc as u64))));
    assert(es =~= none.push(es[0]).push(es[1]).push(es[2]).push(es[3]));
    told::lemma_next(p, none, es[0]);
    told::lemma_next(p, none.push(es[0]), es[1]);
    told::lemma_next(p, none.push(es[0]).push(es[1]), es[2]);
    told::lemma_next(p, none.push(es[0]).push(es[1]).push(es[2]), es[3]);
}

/// Before a seat is booked the user is asked, with the library, the floor, the section
/// and the seat by their names, the day, and the kind of the seat.
pub proof fn law_a_seat_is_put_to_the_user(today: Date, args: json::Tree, dc: u8, w: SeatAt)
    requires
        config::choice(today, library::day_named(args)) == Ok::<u8, Seq<char>>(dc),
        names_seat(args, w),
    ensures
        ends(
            today,
            "book_library_seat"@,
            args,
            false,
            calls_to(w, dc),
            Ok(
                plan::OutV::Confirm {
                    tool: "book_library_seat"@,
                    args,
                    summary: "预约图书馆座位："@ + json::text_at(w.libs[w.li], "zhName"@)
                        + json::text_at(w.floors[w.fi], "zhName"@) + " "@ + json::text_at(
                        w.sections[w.si],
                        "zhName"@,
                    ) + " "@ + json::text_at(w.seats[w.ki], "zhName"@) + "（"@ + (if dc == 0 {
                        "今天"@
                    } else {
                        "明天"@
                    }) + "，座位类型 "@ + (if json::text_at(w.seats[w.ki], "type"@).len() > 0 {
                        json::text_at(w.seats[w.ki], "type"@)
                    } else {
                        "普通"@
                    }) + "）"@,
                },
            ),
        ),
{
    names::lemma_apart();
    lemma_seat(today, args, false, dc, w, library::confirm_seat(today, args));
}

/// A confirmed booking books that very seat, in its section, for the day that was named.
/// It counts as done where the host says so by its status or in words, and is then told
/// with the seat, the section, the time and the status; otherwise it fails with what the
/// host said.
pub proof fn law_a_seat_booking_is_reported(
    today: Date,
    args: json::Tree,
    dc: u8,
    w: SeatAt,
    section: json::Tree,
    r: json::Tree,
) -> (v: json::Tree)
    requires
        config::choice(today, library::day_named(args)) == Ok::<u8, Seq<char>>(dc),
        names_seat(args, w),
        is_number_at(section, w.sections[w.si], "id"@),
    ensures
        ({
            let es = calls_to(w, dc).push(
                told::saw(
                    "library"@,
                    "book"@,
                    Seq::empty().push(w.seats[w.ki]).push(section).push(
                        json::Tree::Pos(dc as u64),
                    ),
                    r,
                ),
            );
            let done = json::field(r, "status"@) == Some(json::Tree::Pos(1)) || json::field(
                r,
                "status"@,
            ) == Some(json::Tree::Neg(1)) || text::occurs(json::text_at(r, "msg"@), "成功"@);
            &&& done ==> ends(today, "book_library_seat"@, args, true, es, tells(v))
            &&& !done ==> ends(
                today,
                "book_library_seat"@,
                args,
                true,
                es,
                Err(
                    "预约未成功："@ + (if json::text_at(r, "msg"@).len() > 0 {
                        json::text_at(r, "msg"@)
                    } else {
                        json::json_text(r)
                    }),
                ),
            )
        }),
        json::field(v, "success"@) == Some(json::Tree::Bool(true)),
        told::text_from(v, "seat"@, w.seats[w.ki], "zhName"@),
        told::text_from(v, "section"@, w.sections[w.si], "zhName"@),
        json::field(json::value_at(r, "data"@), "starttime"@) matches Some(json::Tree::Str(x))
            ==> json::field(v, "time"@) == Some(json::Tree::Str("今天 "@ + x)),
        json::field(json::value_at(r, "data"@), "starttime"@) is None ==> json::field(v, "time"@)
            == Some(json::Tree::Str("今天"@)),
        json::field(json::value_at(r, "data"@), "statusName"@) matches Some(json::Tree::Str(x))
            ==> json::field(v, "status"@) == Some(json::Tree::Str(x)),
        json::field(json::value_at(r, "data"@), "statusName"@) is None ==> json::field(
            v,
            "status"@,
        ) == Some(json::Tree::Str("预约成功"@)),
        json::field(v, "hint"@) == Some(
            json::Tree::Str("已同步到预约记录；可用 my_library_bookings 复核"@),
        ),
{
    names::lemma_apart();
    reveal_with_fuel(json::field_from, 7);
    let p = tools::tool_plan(today, "book_library_seat"@, args, true);
    lemma_seat(today, args, true, dc, w, library::book_seat(today, args));
    let e = told::saw(
        "library"@,
        "book"@,
        Seq::empty().push(w.seats[w.ki]).push(section).push(json::Tree::Pos(dc as u64)),
        r,
    );
    told::lemma_next(p, calls_to(w, dc), e);
    assert(json::int_tree(json::int_at(w.sections[w.si], "id"@) as int) == section);
    let s = library::SeatV {
        seat: w.seats[w.ki],
        section: w.sections[w.si],
        floor: w.floors[w.fi],
        library: w.libs[w.li],
    };
    library::receipt(s, r)
}

/// What a booking is cancelled by: the text or the number that the host gives for that,
/// or where it gives none, or an empty one, the id.
pub open spec fn is_cancelled_by(rec: json::Tree, key: Seq<char>) -> bool {
    match json::field(rec, "delId"@) {
        Some(json::Tree::Str(x)) => key == if x.len() > 0 {
            x
        } else {
            json::text_at(rec, "id"@)
        },
        Some(json::Tree::Pos(n)) => n <= i64::MAX && key == text::decimal(n as nat),
        Some(json::Tree::Neg(n)) => key == text::signed_decimal(n as int),
        _ => key == json::text_at(rec, "id"@),
    }
}

proof fn lemma_written(n: int)
    ensures
        text::signed_decimal(n).len() > 0,
{
    reveal_with_fuel(text::decimal, 2);
}

/// A booked seat is cancelled by what the host gives for that, and told with its place;
/// where the host refuses because it was done too often, the user is told so, and
/// otherwise the error. Before that the user is asked, with the place, the time and the
/// status of the booking.
pub proof fn law_a_cancelled_seat_is_reported(
    today: Date,
    args: json::Tree,
    recs: Seq<json::Tree>,
    i: int,
    key: Seq<char>,
    any: json::Tree,
    e: Seq<char>,
) -> (v: json::Tree)
    requires
        picks(args, "bookingIdx"@, recs, i),
        is_cancelled_by(recs[i], key),
    ensures
        ({
            let list = told::saw("library"@, "records"@, Seq::empty(), json::Tree::Arr(recs));
            let by = json::Tree::Arr(Seq::empty().push(json::Tree::Str(key)));
            let done = host::Exchange::Call {
                ns: "library"@,
                method: "cancel"@,
                args: by,
                reply: Ok(any),
            };
            let refused = host::Exchange::Call {
                ns: "library"@,
                method: "cancel"@,
                args: by,
                reply: Err(e),
            };
            let x = told_error(e);
            &&& ends(
                today,
                "cancel_library_booking"@,
                args,
                false,
                Seq::empty().push(list),
                Ok(
                    plan::OutV::Confirm {
                        tool: "cancel_library_booking"@,
                        args,
                        summary: "取消图书馆座位预约："@ + json::text_at(recs[i], "pos"@) + " @ "@
                            + json::text_at(recs[i], "time"@) + "（"@ + json::text_at(
                            recs[i],
                            "status"@,
                        ) + "）"@,
                    },
                ),
            )
            &&& ends(
                today,
                "cancel_library_booking"@,
                args,
                true,
                Seq::empty().push(list).push(done),
                tells(v),
            )
            &&& ends(
                today,
                "cancel_library_booking"@,
                args,
                true,
                Seq::empty().push(list).push(refused),
                Err(
                    if text::occurs(x, "上限"@) || text::occurs(x, "次数"@) || text::occurs(
                        x,
                        "频繁"@,
                    ) {
                        "今日取消次数已达上限（座位系统限制每个图书馆每自然日取消 1 次）。"@
                            + json::text_at(recs[i], "pos"@)
                            + " 的预约仍在生效，明天 0 点后可再取消，或到图书馆座位系统「我的中心」手动处理。"@
                    } else {
                        x
                    },
                ),
            )
        }),
        json::field(v, "success"@) == Some(json::Tree::Bool(true)),
        told::text_from(v, "cancelled"@, recs[i], "pos"@),
{
    names::lemma_apart();
    reveal_with_fuel(json::field_from, 4);
    let list = told::saw("library"@, "records"@, Seq::empty(), json::Tree::Arr(recs));
    let by = json::Tree::Arr(Seq::empty().push(json::Tree::Str(key)));
    let done = host::Exchange::Call { ns: "library"@, method: "cancel"@, args: by, reply: Ok(any) };
    let refused = host::Exchange::Call { ns: "library"@, method: "cancel"@, args: by, reply: Err(e) };
    let p = tools::tool_plan(today, "cancel_library_booking"@, args, false);
    let q = tools::tool_plan(today, "cancel_library_booking"@, args, true);
    let none = Seq::<host::Exchange>::empty();
    if let Some(json::Tree::Neg(n)) = json::field(recs[i], "delId"@) {
        lemma_written(n as int);
    }
    if let Some(json::Tree::Pos(n)) = json::field(recs[i], "delId"@) {
        lemma_written(n as int);
    }
    assert(library::cancel_key(recs[i]) == key);
    told::lemma_next(p, none, list);
    told::lemma_next(q, none, list);
    told::lemma_next(q, none.push(list), done);
    told::lemma_next(q, none.push(list), refused);
    json::Tree::Obj(
        json::no_fields().push(("success"@, json::Tree::Bool(true))).push(
            ("cancelled"@, json::Tree::Str(json::text_at(recs[i], "pos"@))),
        ).push(("hint"@, json::Tree::Str("可用 my_library_bookings 复核"@))),
    )
}

/// A booked room is cancelled by its id. Before that the user is asked, with the room,
/// the day and the times of the booking.
pub proof fn law_a_cancelled_room_is_reported(
    today: Date,
    args: json::Tree,
    recs: Seq<json::Tree>,
    i: int,
    any: json::Tree,
) -> (v: json::Tree)
    requires
        picks(args, "recordIdx"@, recs, i),
    ensures
        ends(
            today,
            "cancel_libroom_booking"@,
            args,
            false,
            Seq::empty().push(
                told::saw("libroom"@, "records"@, Seq::empty(), json::Tree::Arr(recs)),
            ),
            Ok(
                plan::OutV::Confirm {
                    tool: "cancel_libroom_booking"@,
                    args,
                    summary: "取消研讨间预约："@ + json::text_at(recs[i], "devName"@) + " "@
                        + json::text_at(recs[i], "date"@) + " "@ + json::text_at(recs[i], "begin"@)
                        + "-"@ + json::text_at(recs[i], "end"@),
                },
            ),
        ),
        ends(
            today,
            "cancel_libroom_booking"@,
            args,
            true,
            Seq::empty().push(
                told::saw("libroom"@, "records"@, Seq::empty(), json::Tree::Arr(recs)),
            ).push(
                told::saw(
                    "libroom"@,
                    "cancel"@,
                    Seq::empty().push(json::Tree::Str(json::text_at(recs[i], "uuid"@))),
                    any,
                ),
            ),
            tells(v),
        ),
        json::field(v, "success"@) == Some(json::Tree::Bool(true)),
{
    names::lemma_apart();
    reveal_with_fuel(json::field_from, 2);
    let list = told::saw("libroom"@, "records"@, Seq::empty(), json::Tree::Arr(recs));
    let gone = told::saw(
        "libroom"@,
        "cancel"@,
        Seq::empty().push(json::Tree::Str(json::text_at(recs[i], "uuid"@))),
        any,
    );
    let none = Seq::<host::Exchange>::empty();
    told::lemma_next(tools::tool_plan(today, "cancel_libroom_booking"@, args, false), none, list);
    let q = tools::tool_plan(today, "cancel_libroom_booking"@, args, true);
    told::lemma_next(q, none, list);
    told::lemma_next(q, none.push(list), gone);
    json::Tree::Obj(json::no_fields().push(("success"@, json::Tree::Bool(true))))
}

/// Without a word for the kind the kinds of rooms are told, in the host's order.
pub proof fn law_kinds_are_the_hosts(
    today: Date,
    args: json::Tree,
    kinds: Seq<json::Tree>,
) -> (v: json::Tree)
    requires
        config::resolved(today, json::text_at(args, "date"@)) is Some,
        json::text_at(args, "kind"@).len() == 0,
    ensures
        ends(
            today,
            "query_librooms"@,
            args,
            false,
            Seq::empty().push(
                told::saw("libroom"@, "list"@, Seq::empty(), json::Tree::Arr(kinds)),
            ),
            tells(v),
        ),
        json::field(v, "note"@) == Some(
            json::Tree::Str(
                "以上是全部类型目录；查某类型的房间与占用请带 kind 参数重查（如 kind=研讨间）"@,
            ),
        ),
        json::field(v, "kinds"@) matches Some(json::Tree::Arr(rows)) && rows.len() == kinds.len()
            && forall|i: int|
            0 <= i < rows.len() ==> {
                let row = #[trigger] rows[i];
                &&& json::field(row, "kindIdx"@) == Some(json::Tree::Pos(i as u64))
                &&& told::number_from(row, "kindId"@, kinds[i], "kindId"@)
                &&& told::text_from(row, "kindName"@, kinds[i], "kindName"@)
            },
{
    names::lemma_apart();
    reveal_with_fuel(json::field_from, 4);
    told::lemma_next(
        tools::tool_plan(today, "query_librooms"@, args, false),
        Seq::empty(),
        told::saw("libroom"@, "list"@, Seq::empty(), json::Tree::Arr(kinds)),
    );
    rooms::catalog(kinds)
}

/// The kinds whose names hold the word: all of them, in order, and no others.
pub open spec fn are_called(chosen: Seq<int>, kinds: Seq<json::Tree>, word: Seq<char>) -> bool {
    &&& forall|j: int|
        0 <= j < chosen.len() ==> 0 <= (#[trigger] chosen[j]) < kinds.len() && text::occurs(
            json::text_at(kinds[chosen[j]], "kindName"@),
            word,
        )
    &&& forall|j: int, k: int|
        0 <= j < k < chosen.len() ==> (#[trigger] chosen[j]) < (#[trigger] chosen[k])
    &&& forall|i: int|
        0 <= i < kinds.len() && text::occurs(
            json::text_at(#[trigger] kinds[i], "kindName"@),
            word,
        ) ==> chosen.contains(i)
}

proof fn lemma_kinds_called(kinds: Seq<json::Tree>, word: Seq<char>)
    ensures
        are_called(rooms::kinds_called(kinds, word), kinds, word),
    decreases kinds.len(),
{
    if kinds.len() > 0 {
        let before = kinds.drop_last();
        lemma_kinds_called(before, word);
        let a = rooms::kinds_called(before, word);
        let b = rooms::kinds_called(kinds, word);
        assert forall|j: int| 0 <= j < b.len() implies 0 <= (#[trigger] b[j]) < kinds.len()
            && text::occurs(json::text_at(kinds[b[j]], "kindName"@), word) by {
            if j < a.len() {
                assert(b[j] == a[j]);
                assert(before[a[j]] == kinds[a[j]]);
            }
        }
        assert forall|j: int, k: int| 0 <= j < k < b.len() implies (#[trigger] b[j]) < (
        #[trigger] b[k]) by {
            assert(b[j] == a[j]);
            if k < a.len() {
                assert(b[k] == a[k]);
            }
        }
        assert forall|i: int|
            0 <= i < kinds.len() && text::occurs(
                json::text_at(#[trigger] kinds[i], "kindName"@),
                word,
            ) implies b.contains(i) by {
            if i < kinds.len() - 1 {
                assert(before[i] == kinds[i]);
                let j = choose|j: int| 0 <= j < a.len() && a[j] == i;
                assert(b[j] == i);
            } else {
                assert(b[b.len() - 1] == i);
            }
        }
    }
}

proof fn lemma_called_once(a: Seq<int>, b: Seq<int>, kinds: Seq<json::Tree>, word: Seq<char>)
    requires
        are_called(a, kinds, word),
        are_called(b, kinds, word),
    ensures
        a == b,
{
    if a.len() < b.len() {
        lemma_same_at(b, a, kinds, word, a.len() as int);
    }
    if b.len() < a.len() {
        lemma_same_at(a, b, kinds, word, b.len() as int);
    }
    assert forall|i: int| 0 <= i < a.len() implies a[i] == b[i] by {
        lemma_same_at(a, b, kinds, word, i);
    }
    assert(a =~= b);
}

proof fn lemma_same_at(a: Seq<int>, b: Seq<int>, kinds: Seq<json::Tree>, word: Seq<char>, i: int)
    requires
        are_called(a, kinds, word),
        are_called(b, kinds, word),
        0 <= i < a.len(),
    ensures
        i < b.len(),
        a[i] == b[i],
    decreases i,
{
    if i > 0 {
        lemma_same_at(a, b, kinds, word, i - 1);
    }
    assert(text::occurs(json::text_at(kinds[a[i]], "kindName"@), word));
    assert(b.contains(a[i]));
    let j = choose|j: int| 0 <= j < b.len() && b[j] == a[i];
    if j < i {
        lemma_same_at(a, b, kinds, word, j);
        assert(a[j] < a[i]);
    }
    if j > i {
        assert(text::occurs(json::text_at(kinds[b[i]], "kindName"@), word));
        assert(a.contains(b[i]));
        let k = choose|k: int| 0 <= k < a.len() && a[k] == b[i];
        assert(b[i] < b[j]);
        if k > i {
            assert(a[i] < a[k]);
        }
        assert(k < i);
        lemma_same_at(a, b, kinds, word, k);
        assert(b[k] < b[i]);
    }
}

/// The call for the rooms of a kind.
pub open spec fn rooms_call(day: Seq<char>, id: json::Tree, reply: host::Reply) -> host::Exchange {
    host::Exchange::Call {
        ns: "libroom"@,
        method: "resources"@,
        args: json::Tree::Arr(Seq::empty().push(json::Tree::Str(day)).push(id)),
        reply,
    }
}

/// What was answered for a kind: at once, or on the second try after an error.
pub struct Answer {
    pub first: Option<Seq<char>>,
    pub rooms: json::Tree,
}

/// The exchanges for the rooms of some kinds: the list, then each kind, a moment apart
/// from the one before; one that failed is asked for once more after a while.
pub open spec fn rooms_calls(
    kinds: Seq<json::Tree>,
    day: Seq<char>,
    ids: Seq<json::Tree>,
    answers: Seq<Answer>,
    n: nat,
) -> Seq<host::Exchange>
    decreases n,
{
    if n == 0 {
        Seq::empty().push(told::saw("libroom"@, "list"@, Seq::empty(), json::Tree::Arr(kinds)))
    } else {
        let k = n - 1;
        let before = rooms_calls(kinds, day, ids, answers, (n - 1) as nat);
        let waited = if k > 0 {
            before.push(host::Exchange::Pause { ms: 600 })
        } else {
            before
        };
        match answers[k].first {
            None => waited.push(rooms_call(day, ids[k], Ok(answers[k].rooms))),
            Some(e) => waited.push(rooms_call(day, ids[k], Err(e))).push(
                host::Exchange::Pause { ms: 1500 },
            ).push(rooms_call(day, ids[k], Ok(answers[k].rooms))),
        }
    }
}

/// The rows of the kinds so far.
pub open spec fn kind_rows(
    kinds: Seq<json::Tree>,
    chosen: Seq<int>,
    day: Seq<char>,
    answers: Seq<Answer>,
    n: nat,
) -> Seq<json::Tree> {
    Seq::new(
        n,
        |k: int| rooms::rooms_row(chosen[k], kinds[chosen[k]], day, answers[k].rooms),
    )
}

proof fn lemma_rooms(
    today: Date,
    args: json::Tree,
    day: int,
    kinds: Seq<json::Tree>,
    chosen: Seq<int>,
    ids: Seq<json::Tree>,
    answers: Seq<Answer>,
    n: nat,
)
    requires
        config::resolved(today, json::text_at(args, "date"@)) == Some(day),
        json::text_at(args, "kind"@).len() > 0,
        chosen == rooms::kinds_called(kinds, json::text_at(args, "kind"@)),
        chosen.len() > 0,
        ids.len() == chosen.len(),
        answers.len() == chosen.len(),
        n <= chosen.len(),
        forall|k: int|
            0 <= k < ids.len() ==> is_number_at(#[trigger] ids[k], kinds[chosen[k]], "kindId"@),
    ensures
        plan::rest(
            tools::tool_plan(today, "query_librooms"@, args, false),
            rooms_calls(kinds, date::date_at(day).text(), ids, answers, n),
        ) == Some(
            rooms::kinds_plan(
                kinds,
                chosen,
                date::date_at(day).text(),
                n as int,
                kind_rows(kinds, chosen, date::date_at(day).text(), answers, n),
            ),
        ),
    decreases n,
{
    names::lemma_apart();
    let d = date::date_at(day).text();
    let p = tools::tool_plan(today, "query_librooms"@, args, false);
    if n == 0 {
        told::lemma_next(
            p,
            Seq::empty(),
            told::saw("libroom"@, "list"@, Seq::empty(), json::Tree::Arr(kinds)),
        );
        assert(kind_rows(kinds, chosen, d, answers, 0) =~= json::no_items());
    } else {
        let m = (n - 1) as nat;
        let k = m as int;
        lemma_rooms(today, args, day, kinds, chosen, ids, answers, m);
        assert(is_number_at(ids[k], kinds[chosen[k]], "kindId"@));
        assert(rooms::rooms_args(d, kinds[chosen[k]]) == json::Tree::Arr(
            Seq::empty().push(json::Tree::Str(d)).push(ids[k]),
        ));
        assert(kind_rows(kinds, chosen, d, answers, n) =~= kind_rows(kinds, chosen, d, answers, m).push(
            rooms::rooms_row(chosen[k], kinds[chosen[k]], d, answers[k].rooms),
        ));
        let before = rooms_calls(kinds, d, ids, answers, m);
        let waited = if k > 0 {
            before.push(host::Exchange::Pause { ms: 600 })
        } else {
            before
        };
        told::lemma_next(p, before, host::Exchange::Pause { ms: 600 });
        let good = rooms_call(d, ids[k], Ok(answers[k].rooms));
        match answers[k].first {
            None => {
                told::lemma_next(p, waited, good);
            },
            Some(e) => {
                let bad = rooms_call(d, ids[k], Err(e));
                told::lemma_next(p, waited, bad);
                told::lemma_next(p, waited.push(bad), host::Exchange::Pause { ms: 1500 });
                told::lemma_next(
                    p,
                    waited.push(bad).push(host::Exchange::Pause { ms: 1500 }),
                    good,
                );
            },
        }
    }
}

/// With a word for the kind, every kind whose name holds it is told with its rooms for the
/// day that is asked for, in order; a call that fails is tried once more.
pub proof fn law_every_kind_of_that_name_is_told(
    today: Date,
    args: json::Tree,
    day: int,
    kinds: Seq<json::Tree>,
    chosen: Seq<int>,
    ids: Seq<json::Tree>,
    answers: Seq<Answer>,
) -> (v: json::Tree)
    requires
        config::resolved(today, json::text_at(args, "date"@)) == Some(day),
        json::text_at(args, "kind"@).len() > 0,
        are_called(chosen, kinds, json::text_at(args, "kind"@)),
        chosen.len() > 0,
        ids.len() == chosen.len(),
        answers.len() == chosen.len(),
        forall|k: int|
            0 <= k < ids.len() ==> is_number_at(#[trigger] ids[k], kinds[chosen[k]], "kindId"@),
    ensures
        ends(
            today,
            "query_librooms"@,
            args,
            false,
            rooms_calls(kinds, date::date_at(day).text(), ids, answers, chosen.len()),
            tells(v),
        ),
        json::field(v, "kinds"@) matches Some(json::Tree::Arr(rows)) && rows.len() == chosen.len()
            && forall|k: int|
            0 <= k < rows.len() ==> {
                let row = #[trigger] rows[k];
                &&& json::field(row, "kindIdx"@) == Some(json::Tree::Pos(chosen[k] as u64))
                &&& json::field(row, "kindId"@) == Some(ids[k])
                &&& told::text_from(row, "kindName"@, kinds[chosen[k]], "kindName"@)
                &&& json::field(row, "date"@) == Some(
                    json::Tree::Str(date::date_at(day).text()),
                )
                &&& json::field(row, "rooms"@) == Some(
                    json::Tree::Arr(json::elements(answers[k].rooms)),
                )
            },
{
    names::lemma_apart();
    reveal_with_fuel(json::field_from, 6);
    let word = json::text_at(args, "kind"@);
    lemma_kinds_called(kinds, word);
    lemma_called_once(chosen, rooms::kinds_called(kinds, word), kinds, word);
    let n = chosen.len();
    let d = date::date_at(day).text();
    lemma_rooms(today, args, day, kinds, chosen, ids, answers, n);
    let rows = kind_rows(kinds, chosen, d, answers, n);
    assert forall|k: int| 0 <= k < rows.len() implies {
        let row = #[trigger] rows[k];
        &&& json::field(row, "kindIdx"@) == Some(json::Tree::Pos(chosen[k] as u64))
        &&& json::field(row, "kindId"@) == Some(ids[k])
        &&& told::text_from(row, "kindName"@, kinds[chosen[k]], "kindName"@)
        &&& json::field(row, "date"@) == Some(json::Tree::Str(d))
        &&& json::field(row, "rooms"@) == Some(json::Tree::Arr(json::elements(answers[k].rooms)))
    } by {
        assert(is_number_at(ids[k], kinds[chosen[k]], "kindId"@));
    }
    json::Tree::Obj(json::no_fields().push(("kinds"@, json::Tree::Arr(rows))))
}

/// A room by its place in each of the host's lists.
pub struct RoomAt {
    pub kinds: Seq<json::Tree>,
    pub ki: int,
    pub id: json::Tree,
    pub rooms: Seq<json::Tree>,
    pub ri: int,
}

/// The arguments name that room.
pub open spec fn names_room(args: json::Tree, w: RoomAt) -> bool {
    &&& picks(args, "kindIdx"@, w.kinds, w.ki)
    &&& picks(args, "roomIdx"@, w.rooms, w.ri)
    &&& is_number_at(w.id, w.kinds[w.ki], "kindId"@)
}

/// The calls that lead to a room.
pub open spec fn calls_to_room(w: RoomAt, day: Seq<char>) -> Seq<host::Exchange> {
    Seq::empty().push(told::saw("libroom"@, "list"@, Seq::empty(), json::Tree::Arr(w.kinds))).push(
        rooms_call(day, w.id, Ok(json::Tree::Arr(w.rooms))),
    )
}

/// What a room is called.
pub open spec fn called(room: json::Tree) -> Seq<char> {
    if json::text_at(room, "roomName"@).len() > 0 {
        json::text_at(room, "roomName"@)
    } else {
        json::text_at(room, "devName"@)
    }
}

proof fn lemma_room(
    today: Date,
    args: json::Tree,
    confirmed: bool,
    day: int,
    w: RoomAt,
    then: spec_fn(rooms::RoomV) -> plan::Plan,
)
    requires
        config::resolved(today, json::text_at(args, "date"@)) == Some(day),
        names_room(args, w),
        tools::tool_plan(today, "book_libroom"@, args, confirmed) == rooms::libroom_plan(
            today,
            args,
            then,
        ),
    ensures
        plan::rest(
            tools::tool_plan(today, "book_libroom"@, args, confirmed),
            calls_to_room(w, date::date_at(day).text()),
        ) == Some(then(rooms::RoomV { room: w.rooms[w.ri], day: date::date_at(day).text() })),
{
    let p = rooms::libroom_plan(today, args, then);
    let d = date::date_at(day).text();
    let es = calls_to_room(w, d);
    let none = Seq::<host::Exchange>::empty();
    assert(rooms::rooms_args(d, w.kinds[w.ki]) == json::Tree::Arr(
        Seq::empty().push(json::Tree::Str(d)).push(w.id),
    ));
    assert(es =~= none.push(es[0]).push(es[1]));
    told::lemma_next(p, none, es[0]);
    told::lemma_next(p, none.push(es[0]), es[1]);
}

/// Before a room is booked the user is asked, with its name, the day and the times, and
/// how many come along.
pub proof fn law_a_room_is_put_to_the_user(today: Date, args: json::Tree, day: int, w: RoomAt)
    requires
        config::resolved(today, json::text_at(args, "date"@)) == Some(day),
        names_room(args, w),
    ensures
        ends(
            today,
            "book_libroom"@,
            args,
            false,
            calls_to_room(w, date::date_at(day).text()),
            Ok(
                plan::OutV::Confirm {
                    tool: "book_libroom"@,
                    args,
                    summary: "预约研讨间："@ + called(w.rooms[w.ri]) + "（"@ + date::date_at(
                        day,
                    ).text() + " "@ + json::text_at(args, "start"@) + "-"@ + json::text_at(
                        args,
                        "end"@,
                    ) + "，成员 "@ + text::decimal(
                        json::elements_of(json::field(args, "members"@)).len(),
                    ) + " 人，不含本人）"@,
                },
            ),
        ),
{
    names::lemma_apart();
    lemma_room(today, args, false, day, w, rooms::confirm_room(args));
}

/// The minutes of a time since midnight.
pub open spec fn minute_of_day(t: (u32, u32)) -> int {
    t.0 * 60 + t.1
}

/// A time of a day, as the host takes it.
pub open spec fn at_time(day: Seq<char>, t: (u32, u32)) -> Seq<char> {
    day + " "@ + text::two_digits(t.0 as nat) + ":"@ + text::two_digits(t.1 as nat)
}

/// A booking that ends before it begins, that is longer than the room allows, or that
/// brings more people than it allows, is refused before anything is booked; so is one
/// whose times are none.
pub proof fn law_a_room_is_not_overbooked(today: Date, args: json::Tree, day: int, w: RoomAt)
    requires
        config::resolved(today, json::text_at(args, "date"@)) == Some(day),
        names_room(args, w),
    ensures
        ({
            let start = config::clock_time(json::text_at(args, "start"@));
            let end = config::clock_time(json::text_at(args, "end"@));
            let n = json::elements_of(json::field(args, "members"@)).len();
            let max = json::int_at(w.rooms[w.ri], "maxMinute"@);
            let limit = json::int_at(w.rooms[w.ri], "limit"@);
            let es = calls_to_room(w, date::date_at(day).text());
            let minutes = minute_of_day(end->Some_0) - minute_of_day(start->Some_0);
            &&& start is None ==> ends(
                today,
                "book_libroom"@,
                args,
                true,
                es,
                Err("无法理解开始时间"@),
            )
            &&& start is Some && end is None ==> ends(
                today,
                "book_libroom"@,
                args,
                true,
                es,
                Err("无法理解结束时间"@),
            )
            &&& start is Some && end is Some && minutes <= 0 ==> ends(
                today,
                "book_libroom"@,
                args,
                true,
                es,
                Err("结束时间需晚于开始时间"@),
            )
            &&& start is Some && end is Some && minutes > 0 && 0 < max < minutes ==> ends(
                today,
                "book_libroom"@,
                args,
                true,
                es,
                Err(
                    "时长 "@ + text::signed_decimal(minutes) + " 分钟超过该资源上限 "@
                        + text::signed_decimal(max as int) + " 分钟"@,
                ),
            )
            &&& start is Some && end is Some && minutes > 0 && !(0 < max < minutes) && 0 < limit < n
                ==> ends(
                today,
                "book_libroom"@,
                args,
                true,
                es,
                Err(
                    "成员 "@ + text::decimal(n) + " 人超过上限 "@ + text::signed_decimal(
                        limit as int,
                    ) + "（发起人另计，按 UI 语义）"@,
                ),
            )
        }),
{
    names::lemma_apart();
    lemma_room(today, args, true, day, w, rooms::book_room(args));
}

/// The label of a hit holds the word.
pub open spec fn is_labelled(hit: json::Tree, word: Seq<char>) -> bool {
    json::field(hit, "label"@) matches Some(json::Tree::Str(l)) && text::occurs(l, word)
}

/// The hit that is taken for a word: the first whose label holds it, or the first of all
/// where none does.
pub open spec fn is_taken(hits: Seq<json::Tree>, word: Seq<char>, i: int) -> bool {
    &&& 0 <= i < hits.len()
    &&& forall|j: int| 0 <= j < i ==> !is_labelled(#[trigger] hits[j], word)
    &&& is_labelled(hits[i], word) || (i == 0 && forall|j: int|
        0 <= j < hits.len() ==> !is_labelled(#[trigger] hits[j], word))
}

/// The account of a hit: its id, a number or a text that is one.
pub open spec fn is_account(hit: json::Tree, account: json::Tree) -> bool {
    match json::field(hit, "id"@) {
        Some(json::Tree::Pos(n)) => n <= i64::MAX && account == json::Tree::Pos(n),
        Some(json::Tree::Neg(n)) => n < 0 && account == json::Tree::Neg(n),
        Some(json::Tree::Str(s)) => text::read_i64(text::trimmed(s)) matches Some(n) && account
            == if n < 0 {
            json::Tree::Neg(n)
        } else {
            json::Tree::Pos(n as u64)
        },
        _ => false,
    }
}

/// Who is asked to come along, and who the host finds.
pub struct Found {
    pub name: Seq<char>,
    pub hits: Seq<json::Tree>,
    pub at: int,
    pub account: json::Tree,
}

pub open spec fn is_found(member: json::Tree, f: Found) -> bool {
    &&& member == json::Tree::Str(f.name)
    &&& text::trimmed(f.name).len() > 0
    &&& is_taken(f.hits, text::trimmed(f.name), f.at)
    &&& is_account(f.hits[f.at], f.account)
}

/// The calls that lead to a room and to those who come along.
pub open spec fn member_calls(w: RoomAt, day: Seq<char>, found: Seq<Found>, n: nat) -> Seq<
    host::Exchange,
>
    decreases n,
{
    if n == 0 {
        calls_to_room(w, day)
    } else {
        member_calls(w, day, found, (n - 1) as nat).push(
            told::saw(
                "libroom"@,
                "fuzzyMember"@,
                Seq::empty().push(json::Tree::Str(text::trimmed(found[n - 1].name))),
                json::Tree::Arr(found[n - 1].hits),
            ),
        )
    }
}

pub open spec fn accounts_of(found: Seq<Found>, n: nat) -> Seq<json::Tree> {
    Seq::new(n, |k: int| found[k].account)
}

proof fn lemma_hit(hits: Seq<json::Tree>, word: Seq<char>, i: int, k: int)
    requires
        is_taken(hits, word, i),
        0 <= k <= hits.len(),
        forall|j: int| 0 <= j < k ==> !is_labelled(#[trigger] hits[j], word),
    ensures
        is_labelled(hits[i], word) ==> rooms::hit_from(hits, word, k) == i,
        !is_labelled(hits[i], word) ==> rooms::hit_from(hits, word, k) == hits.len(),
    decreases hits.len() - k,
{
    if k < hits.len() {
        if is_labelled(hits[k], word) {
            if is_labelled(hits[i], word) {
                assert(k <= i);
                if k < i {
                    assert(!is_labelled(hits[k], word));
                }
            } else {
                assert(!is_labelled(hits[k], word));
            }
        } else {
            lemma_hit(hits, word, i, k + 1);
        }
    } else if is_labelled(hits[i], word) {
        assert(!is_labelled(hits[i], word));
    }
}

/// Nothing stands against a booking of these times by so many.
pub open spec fn fits(room: json::Tree, start: (u32, u32), end: (u32, u32), n: nat) -> bool {
    let minutes = minute_of_day(end) - minute_of_day(start);
    &&& minutes > 0
    &&& !(0 < json::int_at(room, "maxMinute"@) < minutes)
    &&& !(0 < json::int_at(room, "limit"@) < n)
}

proof fn lemma_members(
    today: Date,
    args: json::Tree,
    day: int,
    w: RoomAt,
    start: (u32, u32),
    end: (u32, u32),
    members: Seq<json::Tree>,
    found: Seq<Found>,
    n: nat,
)
    requires
        config::resolved(today, json::text_at(args, "date"@)) == Some(day),
        names_room(args, w),
        config::clock_time(json::text_at(args, "start"@)) == Some(start),
        config::clock_time(json::text_at(args, "end"@)) == Some(end),
        members == json::elements_of(json::field(args, "members"@)),
        fits(w.rooms[w.ri], start, end, members.len()),
        found.len() == members.len(),
        n <= members.len(),
        forall|k: int| 0 <= k < members.len() ==> is_found(members[k], #[trigger] found[k]),
    ensures
        plan::rest(
            tools::tool_plan(today, "book_libroom"@, args, true),
            member_calls(w, date::date_at(day).text(), found, n),
        ) == Some(
            rooms::members_plan(
                rooms::RoomV { room: w.rooms[w.ri], day: date::date_at(day).text() },
                at_time(date::date_at(day).text(), start),
                at_time(date::date_at(day).text(), end),
                members,
                n as int,
                accounts_of(found, n),
            ),
        ),
    decreases n,
{
    names::lemma_apart();
    let d = date::date_at(day).text();
    let p = tools::tool_plan(today, "book_libroom"@, args, true);
    let x = rooms::RoomV { room: w.rooms[w.ri], day: d };
    if n == 0 {
        lemma_room(today, args, true, day, w, rooms::book_room(args));
        assert(rooms::obstacle(x.room, start, end, members.len()) is None);
        assert(rooms::moment(d, start) == at_time(d, start));
        assert(rooms::moment(d, end) == at_time(d, end));
        assert(accounts_of(found, 0) =~= json::no_items());
    } else {
        let m = (n - 1) as nat;
        let k = m as int;
        lemma_members(today, args, day, w, start, end, members, found, m);
        assert(is_found(members[k], found[k]));
        let word = text::trimmed(found[k].name);
        lemma_hit(found[k].hits, word, found[k].at, 0);
        told::lemma_next(
            p,
            member_calls(w, d, found, m),
            told::saw(
                "libroom"@,
                "fuzzyMember"@,
                Seq::empty().push(json::Tree::Str(word)),
                json::Tree::Arr(found[k].hits),
            ),
        );
        assert(rooms::best_hit(found[k].hits, word) == Some(found[k].hits[found[k].at]));
        assert(accounts_of(found, n) =~= accounts_of(found, m).push(found[k].account));
    }
}

/// A confirmed booking books that very room, from the one time to the other of the day
/// that was named, for the accounts of those who come along, and is told with the room
/// and the times.
pub proof fn law_a_room_booking_is_reported(
    today: Date,
    args: json::Tree,
    day: int,
    w: RoomAt,
    start: (u32, u32),
    end: (u32, u32),
    members: Seq<json::Tree>,
    found: Seq<Found>,
    any: json::Tree,
) -> (v: json::Tree)
    requires
        config::resolved(today, json::text_at(args, "date"@)) == Some(day),
        names_room(args, w),
        config::clock_time(json::text_at(args, "start"@)) == Some(start),
        config::clock_time(json::text_at(args, "end"@)) == Some(end),
        members == json::elements_of(json::field(args, "members"@)),
        fits(w.rooms[w.ri], start, end, members.len()),
        found.len() == members.len(),
        forall|k: int| 0 <= k < members.len() ==> is_found(members[k], #[trigger] found[k]),
    ensures
        ({
            let d = date::date_at(day).text();
            let from = at_time(d, start);
            let to = at_time(d, end);
            &&& ends(
                today,
                "book_libroom"@,
                args,
                true,
                member_calls(w, d, found, members.len()).push(
                    told::saw(
                        "libroom"@,
                        "book"@,
                        Seq::empty().push(w.rooms[w.ri]).push(json::Tree::Str(from)).push(
                            json::Tree::Str(to),
                        ).push(json::Tree::Arr(accounts_of(found, members.len()))),
                        any,
                    ),
                ),
                tells(v),
            )
            &&& json::field(v, "success"@) == Some(json::Tree::Bool(true))
            &&& json::field(v, "room"@) == Some(json::Tree::Str(called(w.rooms[w.ri])))
            &&& json::field(v, "time"@) == Some(json::Tree::Str(from + " ~ "@ + to))
        }),
{
    names::lemma_apart();
    reveal_with_fuel(json::field_from, 4);
    let d = date::date_at(day).text();
    let n = members.len();
    let from = at_time(d, start);
    let to = at_time(d, end);
    lemma_members(today, args, day, w, start, end, members, found, n);
    told::lemma_next(
        tools::tool_plan(today, "book_libroom"@, args, true),
        member_calls(w, d, found, n),
        told::saw(
            "libroom"@,
            "book"@,
            Seq::empty().push(w.rooms[w.ri]).push(json::Tree::Str(from)).push(
                json::Tree::Str(to),
            ).push(json::Tree::Arr(accounts_of(found, n))),
            any,
        ),
    );
    json::Tree::Obj(
        json::no_fields().push(("success"@, json::Tree::Bool(true))).push(
            ("room"@, json::Tree::Str(called(w.rooms[w.ri]))),
        ).push(("time"@, json::Tree::Str(from + " ~ "@ + to))),
    )
}

/// The arguments name an item that is not there.
pub open spec fn misses(args: json::Tree, key: Seq<char>, items: Seq<json::Tree>) -> bool {
    match json::field(args, key) {
        Some(json::Tree::Pos(n)) => items.len() <= n <= i64::MAX,
        Some(json::Tree::Neg(n)) => n < 0,
        _ => items.len() == 0,
    }
}

/// Where the host's list does not hold what the arguments name, the tool says so and asks
/// for nothing more.
pub proof fn law_what_is_not_there_is_refused(
    today: Date,
    args: json::Tree,
    confirmed: bool,
    items: Seq<json::Tree>,
    dc: u8,
    day: int,
)
    ensures
        ({
            let libs = Seq::empty().push(
                told::saw("library"@, "list"@, Seq::empty(), json::Tree::Arr(items)),
            );
            let kinds = Seq::empty().push(
                told::saw("libroom"@, "list"@, Seq::empty(), json::Tree::Arr(items)),
            );
            let seats = Seq::empty().push(
                told::saw("library"@, "records"@, Seq::empty(), json::Tree::Arr(items)),
            );
            let rooms = Seq::empty().push(
                told::saw("libroom"@, "records"@, Seq::empty(), json::Tree::Arr(items)),
            );
            &&& misses(args, "libIdx"@, items) && config::choice(today, library::day_named(args))
                == Ok::<u8, Seq<char>>(dc) ==> ends(
                today,
                "query_library_seats"@,
                args,
                confirmed,
                libs,
                Err("libIdx 越界，请先 query_library"@),
            )
            &&& misses(args, "libIdx"@, items) ==> ends(
                today,
                "book_library_seat"@,
                args,
                confirmed,
                libs,
                Err("libIdx 越界"@),
            )
            &&& misses(args, "bookingIdx"@, items) ==> ends(
                today,
                "cancel_library_booking"@,
                args,
                confirmed,
                seats,
                Err(
                    if confirmed {
                        "bookingIdx 越界"@
                    } else {
                        "预约记录序号不存在，请先 my_library_bookings 查询"@
                    },
                ),
            )
            &&& misses(args, "recordIdx"@, items) ==> ends(
                today,
                "cancel_libroom_booking"@,
                args,
                confirmed,
                rooms,
                Err(
                    if confirmed {
                        "recordIdx 越界"@
                    } else {
                        "记录序号不存在，请先 my_libroom_bookings 查询"@
                    },
                ),
            )
            &&& misses(args, "kindIdx"@, items) && json::field(args, "kindIdx"@) is Some
                && config::resolved(today, json::text_at(args, "date"@)) == Some(day) ==> ends(
                today,
                "book_libroom"@,
                args,
                confirmed,
                kinds,
                Err("kindIdx 越界（请重新 query_librooms）"@),
            )
        }),
{
    names::lemma_apart();
    let none = Seq::<host::Exchange>::empty();
    let all = json::Tree::Arr(items);
    told::lemma_next(
        tools::tool_plan(today, "query_library_seats"@, args, confirmed),
        none,
        told::saw("library"@, "list"@, Seq::empty(), all),
    );
    told::lemma_next(
        tools::tool_plan(today, "book_library_seat"@, args, confirmed),
        none,
        told::saw("library"@, "list"@, Seq::empty(), all),
    );
    told::lemma_next(
        tools::tool_plan(today, "cancel_library_booking"@, args, confirmed),
        none,
        told::saw("library"@, "records"@, Seq::empty(), all),
    );
    told::lemma_next(
        tools::tool_plan(today, "cancel_libroom_booking"@, args, confirmed),
        none,
        told::saw("libroom"@, "records"@, Seq::empty(), all),
    );
    told::lemma_next(
        tools::tool_plan(today, "book_libroom"@, args, confirmed),
        none,
        told::saw("libroom"@, "list"@, Seq::empty(), all),
    );
}

/// A day that is not understood is refused before the host is asked anything.
pub proof fn law_a_day_not_understood_is_refused(
    today: Date,
    name: Seq<char>,
    args: json::Tree,
    confirmed: bool,
    raw: Seq<char>,
)
    requires
        config::resolved(today, raw) is None,
    ensures
        (name == "query_library"@ || name == "query_library_seats"@) && json::field(args, "date"@)
            == Some(json::Tree::Str(raw)) && text::trimmed(raw).len() > 0 ==> ends(
            today,
            name,
            args,
            confirmed,
            Seq::empty(),
            Err("无法理解日期「"@ + raw + "」，请用 今天/明天 或 YYYY-MM-DD。"@),
        ),
        name == "query_librooms"@ && json::field(args, "date"@) == Some(json::Tree::Str(raw))
            ==> ends(
            today,
            name,
            args,
            confirmed,
            Seq::empty(),
            Err("无法理解日期「"@ + raw + "」"@),
        ),
        name == "query_schedule"@ && json::field(args, "start"@) == Some(json::Tree::Str(raw))
            && text::trimmed(raw).len() > 0 ==> ends(
            today,
            name,
            args,
            confirmed,
            Seq::empty(),
            Err("无法理解 start 日期"@),
        ),
        name == "query_card_transactions"@ && json::field(args, "start"@) == Some(
            json::Tree::Str(raw),
        ) && text::trimmed(raw).len() > 0 ==> ends(
            today,
            name,
            args,
            confirmed,
            Seq::empty(),
            Err("无法理解 start 日期"@),
        ),
{
    names::lemma_apart();
}

/// Seats and libraries are asked for the day that is named, and for today where none is
/// or the name is blank.
pub proof fn law_no_day_means_today(args: json::Tree, x: Seq<char>)
    ensures
        json::field(args, "date"@) is None ==> library::day_named(args) == "今天"@,
        json::field(args, "date"@) == Some(json::Tree::Str(x)) ==> library::day_named(args)
            == if text::trimmed(x).len() == 0 {
            "今天"@
        } else {
            x
        },
{
}

/// The timetable is that of the days that are named, from the first to the last, as the
/// host has it.
pub proof fn law_the_timetable_is_of_the_days_named(
    today: Date,
    args: json::Tree,
    start: int,
    end: int,
    v: json::Tree,
)
    requires
        text::trimmed(json::text_at(args, "start"@)).len() > 0,
        json::text_at(args, "end"@).len() > 0,
        config::resolved(today, json::text_at(args, "start"@)) == Some(start),
        config::resolved(today, json::text_at(args, "end"@)) == Some(end),
    ensures
        ends(
            today,
            "query_schedule"@,
            args,
            false,
            Seq::empty().push(
                told::saw(
                    "info"@,
                    "schedule"@,
                    Seq::empty().push(json::Tree::Str(date::date_at(start).text())).push(
                        json::Tree::Str(date::date_at(end).text()),
                    ),
                    v,
                ),
            ),
            tells(v),
        ),
{
    names::lemma_apart();
    told::lemma_next(
        tools::tool_plan(today, "query_schedule"@, args, false),
        Seq::empty(),
        told::saw(
            "info"@,
            "schedule"@,
            Seq::empty().push(json::Tree::Str(date::date_at(start).text())).push(
                json::Tree::Str(date::date_at(end).text()),
            ),
            v,
        ),
    );
}

/// A timetable without a last day ends six days after the first.
pub proof fn law_the_timetable_is_of_a_week(
    today: Date,
    args: json::Tree,
    start: int,
    v: json::Tree,
)
    requires
        text::trimmed(json::text_at(args, "start"@)).len() > 0,
        json::text_at(args, "end"@).len() == 0,
        config::resolved(today, json::text_at(args, "start"@)) == Some(start),
        date::first_day() <= start + 6 <= date::last_day(),
    ensures
        ends(
            today,
            "query_schedule"@,
            args,
            false,
            Seq::empty().push(
                told::saw(
                    "info"@,
                    "schedule"@,
                    Seq::empty().push(json::Tree::Str(date::date_at(start).text())).push(
                        json::Tree::Str(date::date_at(start + 6).text()),
                    ),
                    v,
                ),
            ),
            tells(v),
        ),
{
    names::lemma_apart();
    told::lemma_next(
        tools::tool_plan(today, "query_schedule"@, args, false),
        Seq::empty(),
        told::saw(
            "info"@,
            "schedule"@,
            Seq::empty().push(json::Tree::Str(date::date_at(start).text())).push(
                json::Tree::Str(date::date_at(start + 6).text()),
            ),
            v,
        ),
    );
}

proof fn lemma_blank(
    x: rooms::RoomV,
    from: Seq<char>,
    to: Seq<char>,
    members: Seq<json::Tree>,
    i: int,
    accounts: Seq<json::Tree>,
)
    requires
        0 <= i <= members.len(),
        forall|k: int| i <= k < members.len() ==> is_blank(#[trigger] members[k]),
    ensures
        rooms::members_plan(x, from, to, members, i, accounts) == rooms::members_plan(
            x,
            from,
            to,
            members,
            members.len() as int,
            accounts,
        ),
    decreases members.len() - i,
{
    if i < members.len() {
        assert(is_blank(members[i]));
        lemma_blank(x, from, to, members, i + 1, accounts);
    }
}

/// A name that is none, or nothing but white space.
pub open spec fn is_blank(member: json::Tree) -> bool {
    member matches json::Tree::Str(s) ==> text::trimmed(s).len() == 0
}

/// Names that are blank are passed over; a name that the host does not find ends the
/// booking, which says so.
pub proof fn law_blank_and_unknown_names(
    today: Date,
    args: json::Tree,
    day: int,
    w: RoomAt,
    start: (u32, u32),
    end: (u32, u32),
    members: Seq<json::Tree>,
    name: Seq<char>,
    any: json::Tree,
)
    requires
        config::resolved(today, json::text_at(args, "date"@)) == Some(day),
        names_room(args, w),
        config::clock_time(json::text_at(args, "start"@)) == Some(start),
        config::clock_time(json::text_at(args, "end"@)) == Some(end),
        members == json::elements_of(json::field(args, "members"@)),
        fits(w.rooms[w.ri], start, end, members.len()),
    ensures
        ({
            let d = date::date_at(day).text();
            &&& (forall|k: int| 0 <= k < members.len() ==> is_blank(#[trigger] members[k]))
                ==> plan::rest(
                tools::tool_plan(today, "book_libroom"@, args, true),
                calls_to_room(w, d).push(
                    told::saw(
                        "libroom"@,
                        "book"@,
                        Seq::empty().push(w.rooms[w.ri]).push(
                            json::Tree::Str(at_time(d, start)),
                        ).push(json::Tree::Str(at_time(d, end))).push(
                            json::Tree::Arr(Seq::empty()),
                        ),
                        any,
                    ),
                ),
            ) is Some
            &&& members.len() > 0 && members[0] == json::Tree::Str(name) && text::trimmed(
                name,
            ).len() > 0 ==> ends(
                today,
                "book_libroom"@,
                args,
                true,
                calls_to_room(w, d).push(
                    told::saw(
                        "libroom"@,
                        "fuzzyMember"@,
                        Seq::empty().push(json::Tree::Str(text::trimmed(name))),
                        json::Tree::Arr(Seq::empty()),
                    ),
                ),
                Err("搜不到成员「"@ + text::trimmed(name) + "」"@),
            )
        }),
{
    names::lemma_apart();
    let d = date::date_at(day).text();
    let p = tools::tool_plan(today, "book_libroom"@, args, true);
    let x = rooms::RoomV { room: w.rooms[w.ri], day: d };
    lemma_room(today, args, true, day, w, rooms::book_room(args));
    assert(rooms::obstacle(x.room, start, end, members.len()) is None);
    assert(rooms::moment(d, start) == at_time(d, start));
    assert(rooms::moment(d, end) == at_time(d, end));
    if forall|k: int| 0 <= k < members.len() ==> is_blank(#[trigger] members[k]) {
        lemma_blank(x, at_time(d, start), at_time(d, end), members, 0, json::no_items());
        told::lemma_next(
            p,
            calls_to_room(w, d),
            told::saw(
                "libroom"@,
                "book"@,
                Seq::empty().push(w.rooms[w.ri]).push(json::Tree::Str(at_time(d, start))).push(
                    json::Tree::Str(at_time(d, end)),
                ).push(json::Tree::Arr(Seq::empty())),
                any,
            ),
        );
    }
    if members.len() > 0 && members[0] == json::Tree::Str(name) && text::trimmed(name).len() > 0 {
        told::lemma_next(
            p,
            calls_to_room(w, d),
            told::saw(
                "libroom"@,
                "fuzzyMember"@,
                Seq::empty().push(json::Tree::Str(text::trimmed(name))),
                json::Tree::Arr(Seq::empty()),
            ),
        );
    }
}

/// Where no kind is picked, it is the first whose name holds the word, or the first of
/// all without a word; the rest is as if it had been picked.
pub proof fn law_the_kind_may_be_named(
    today: Date,
    args: json::Tree,
    fields: Seq<(Seq<char>, json::Tree)>,
    confirmed: bool,
    kinds: Seq<json::Tree>,
    i: int,
    es: Seq<host::Exchange>,
)
    requires
        args == json::Tree::Obj(fields),
        json::field(args, "kindIdx"@) is None,
        0 <= i < kinds.len(),
        json::text_at(args, "kind"@).len() == 0 ==> i == 0,
        json::text_at(args, "kind"@).len() > 0 ==> text::occurs(
            json::text_at(kinds[i], "kindName"@),
            json::text_at(args, "kind"@),
        ) && forall|k: int|
            0 <= k < i ==> !text::occurs(
                json::text_at(#[trigger] kinds[k], "kindName"@),
                json::text_at(args, "kind"@),
            ),
    ensures
        ({
            let then = if confirmed {
                rooms::book_room(args)
            } else {
                rooms::confirm_room(args)
            };
            plan::rest(
                tools::tool_plan(today, "book_libroom"@, args, confirmed),
                Seq::empty().push(
                    told::saw("libroom"@, "list"@, Seq::empty(), json::Tree::Arr(kinds)),
                ) + es,
            ) == plan::rest(
                rooms::room_plan(
                    today,
                    json::Tree::Obj(fields.push(("kindIdx"@, json::Tree::Pos(i as u64)))),
                    then,
                ),
                es,
            )
        }),
{
    names::lemma_apart();
    let p = tools::tool_plan(today, "book_libroom"@, args, confirmed);
    let word = json::text_at(args, "kind"@);
    let list = told::saw("libroom"@, "list"@, Seq::empty(), json::Tree::Arr(kinds));
    lemma_kind_from(kinds, word, i, 0);
    told::lemma_next(p, Seq::empty(), list);
    lemma_after_first(p, list, es);
}

proof fn lemma_after_first(p: plan::Plan, e: host::Exchange, es: Seq<host::Exchange>)
    ensures
        plan::rest(p, Seq::empty().push(e) + es) == match plan::step(p, e) {
            Some(q) => plan::rest(q, es),
            None => None,
        },
    decreases es.len(),
{
    let first = Seq::<host::Exchange>::empty().push(e);
    told::lemma_next(p, Seq::empty(), e);
    if es.len() == 0 {
        assert(first + es =~= first);
    } else {
        lemma_after_first(p, e, es.drop_last());
        assert((first + es).drop_last() =~= first + es.drop_last());
        assert((first + es).last() == es.last());
    }
}

proof fn lemma_kind_from(kinds: Seq<json::Tree>, word: Seq<char>, i: int, k: int)
    requires
        0 <= k <= i < kinds.len(),
        word.len() == 0 ==> i == 0,
        word.len() > 0 ==> text::occurs(json::text_at(kinds[i], "kindName"@), word) && forall|k: int|
            0 <= k < i ==> !text::occurs(json::text_at(#[trigger] kinds[k], "kindName"@), word),
    ensures
        rooms::kind_from(kinds, word, k) == i,
    decreases i - k,
{
    if k < i {
        lemma_kind_from(kinds, word, i, k + 1);
    }
}

/// Where no kind of room has the word in its name, the names of all are told.
pub proof fn law_no_such_kind_is_told(
    today: Date,
    args: json::Tree,
    kinds: Seq<json::Tree>,
    all: Seq<Seq<char>>,
)
    requires
        config::resolved(today, json::text_at(args, "date"@)) is Some,
        json::text_at(args, "kind"@).len() > 0,
        forall|k: int|
            0 <= k < kinds.len() ==> !text::occurs(
                json::text_at(#[trigger] kinds[k], "kindName"@),
                json::text_at(args, "kind"@),
            ),
        all.len() == kinds.len(),
        forall|k: int|
            0 <= k < all.len() ==> #[trigger] all[k] == json::text_at(kinds[k], "kindName"@),
    ensures
        ends(
            today,
            "query_librooms"@,
            args,
            false,
            Seq::empty().push(
                told::saw("libroom"@, "list"@, Seq::empty(), json::Tree::Arr(kinds)),
            ),
            Err(
                "找不到类型「"@ + json::text_at(args, "kind"@) + "」，可用："@ + text::joined(
                    all,
                    "、"@,
                ),
            ),
        ),
{
    names::lemma_apart();
    let word = json::text_at(args, "kind"@);
    lemma_kinds_called(kinds, word);
    let chosen = rooms::kinds_called(kinds, word);
    if chosen.len() > 0 {
        assert(text::occurs(json::text_at(kinds[chosen[0]], "kindName"@), word));
    }
    told::lemma_next(
        tools::tool_plan(today, "query_librooms"@, args, false),
        Seq::empty(),
        told::saw("libroom"@, "list"@, Seq::empty(), json::Tree::Arr(kinds)),
    );
    assert(plan::names(kinds, "kindName"@) =~= all);
}

} // verus!
