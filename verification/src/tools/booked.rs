//! What is booked and cancelled: the host's own objects, and those that the user was
//! shown before they confirmed.

use crate::config;
use crate::date::Date;
use crate::host;
use crate::json;
use crate::tools;
use crate::tools::laws;
use crate::tools::library;
use crate::tools::plan;
use crate::tools::rooms;
use vstd::prelude::*;

verus! {

/// What was answered to a call; nothing where the exchange is another, or it failed.
pub open spec fn answer(
    e: host::Exchange,
    ns: Seq<char>,
    method: Seq<char>,
    args: json::Tree,
) -> Option<json::Tree> {
    match e {
        host::Exchange::Call { ns: n, method: m, args: a, reply: Ok(v) } => if n == ns && m == method
            && a == args {
            Some(v)
        } else {
            None
        },
        _ => None,
    }
}

/// The exchange is that call, whatever was answered.
pub open spec fn is_call(
    e: host::Exchange,
    ns: Seq<char>,
    method: Seq<char>,
    args: json::Tree,
) -> bool {
    match e {
        host::Exchange::Call { ns: n, method: m, args: a, reply } => n == ns && m == method && a
            == args,
        _ => false,
    }
}

/// Two exchanges that ask the same, without changing anything, got the same answer.
pub open spec fn agree(e: host::Exchange, f: host::Exchange) -> bool {
    match (e, f) {
        (
            host::Exchange::Call { ns, method, args, reply },
            host::Exchange::Call { ns: n, method: m, args: a, reply: r },
        ) => ns == n && method == m && args == a && !laws::is_write(ns, method) ==> reply == r,
        _ => true,
    }
}

/// The host answered alike in two runs.
pub open spec fn alike(es: Seq<host::Exchange>, fs: Seq<host::Exchange>) -> bool {
    forall|i: int, j: int|
        0 <= i < es.len() && 0 <= j < fs.len() ==> #[trigger] agree(es[i], fs[j])
}

/// The word for a day that seats are offered for.
pub open spec fn choice_label(dc: u8) -> Seq<char> {
    if dc == 0 {
        "今天"@
    } else {
        "明天"@
    }
}

/// A run came to something other than an error, or to a booking or a cancelling.
pub open spec fn arrived(p: plan::Plan, es: Seq<host::Exchange>) -> bool {
    ||| plan::rest(p, es) matches Some(plan::Plan::Done(Ok(_)))
    ||| es.len() > 0 && laws::is_write_exchange(es.last()) && plan::rest(p, es) is Some
}

/// The exchanges begin with the fetching of the seat `s`, for the day `dc`.
pub open spec fn seat_fetched(
    args: json::Tree,
    dc: u8,
    es: Seq<host::Exchange>,
    s: library::SeatV,
) -> bool {
    &&& es.len() >= 4
    &&& answer(es[0], "library"@, "list"@, plan::none()) matches Some(v) && plan::nth(
        json::elements(v),
        json::int_at(args, "libIdx"@),
    ) == Some(s.library)
    &&& answer(
        es[1],
        "library"@,
        "floors"@,
        library::with_choice(json::int_tree(json::int_at(s.library, "id"@) as int), dc),
    ) matches Some(v) && plan::nth(json::elements(v), json::int_at(args, "floorIdx"@)) == Some(
        s.floor,
    )
    &&& answer(es[2], "library"@, "sections"@, library::with_choice(s.floor, dc)) matches Some(v)
        && plan::nth(json::elements(v), json::int_at(args, "sectionIdx"@)) == Some(s.section)
    &&& answer(es[3], "library"@, "seats"@, library::with_choice(s.section, dc)) matches Some(v)
        && plan::nth(json::elements(v), json::int_at(args, "seatIdx"@)) == Some(s.seat)
}

/// The seat that a run fetched, and what was left to do then.
proof fn lemma_seat_run(
    today: Date,
    args: json::Tree,
    then: spec_fn(library::SeatV) -> plan::Plan,
    es: Seq<host::Exchange>,
) -> (s: library::SeatV)
    requires
        arrived(library::seat_plan(today, args, then), es),
    ensures
        config::choice(today, library::day_named(args)) is Ok,
        seat_fetched(args, config::choice(today, library::day_named(args))->Ok_0, es, s),
        plan::rest(then(s), es.skip(4)) == plan::rest(library::seat_plan(today, args, then), es),
{
    laws::lemma_reads();
    let p = library::seat_plan(today, args, then);
    let n = es.len();
    assert(es.take(0) =~= Seq::empty());
    assert(es.take(n as int) =~= es);
    assert(n > 0);
    laws::lemma_rest_take(p, es, 0);
    assert(n > 1);
    laws::lemma_rest_take(p, es, 1);
    assert(n > 2);
    laws::lemma_rest_take(p, es, 2);
    assert(n > 3);
    laws::lemma_rest_take(p, es, 3);
    laws::lemma_rest_split(p, es, 4);
    if n > 4 {
        laws::lemma_rest_take(p, es, 4);
    }
    let dc = config::choice(today, library::day_named(args))->Ok_0;
    let libs = es[0]->Call_reply->Ok_0;
    let library = plan::nth(json::elements(libs), json::int_at(args, "libIdx"@))->Some_0;
    let floors = es[1]->Call_reply->Ok_0;
    let floor = plan::nth(json::elements(floors), json::int_at(args, "floorIdx"@))->Some_0;
    let sections = es[2]->Call_reply->Ok_0;
    let section = plan::nth(json::elements(sections), json::int_at(args, "sectionIdx"@))->Some_0;
    let seats = es[3]->Call_reply->Ok_0;
    let seat = plan::nth(json::elements(seats), json::int_at(args, "seatIdx"@))->Some_0;
    library::SeatV { seat, section, floor, library }
}

/// Where the host answers alike, the same seat is fetched.
proof fn lemma_same_seat(
    args: json::Tree,
    dc: u8,
    es: Seq<host::Exchange>,
    s: library::SeatV,
    fs: Seq<host::Exchange>,
    t: library::SeatV,
)
    requires
        seat_fetched(args, dc, es, s),
        seat_fetched(args, dc, fs, t),
        alike(es, fs),
    ensures
        s == t,
{
    laws::lemma_reads();
    assert(agree(es[0], fs[0]));
    assert(agree(es[1], fs[1]));
    assert(agree(es[2], fs[2]));
    assert(agree(es[3], fs[3]));
}

/// A seat that is booked is the very object that the host has in the list of its
/// section, at the place that was asked for, and the section likewise.
pub proof fn law_booked_seat_is_the_hosts(today: Date, args: json::Tree, es: Seq<host::Exchange>)
    requires
        plan::rest(tools::tool_plan(today, "book_library_seat"@, args, true), es) is Some,
        es.len() > 0,
        laws::is_write_exchange(es.last()),
    ensures
        es.len() == 5,
        es[2] matches host::Exchange::Call { ns, method, args: a, reply: Ok(sections) }
            && es[3] matches host::Exchange::Call { ns, method, args: a, reply: Ok(seats) }
            && plan::nth(json::elements(sections), json::int_at(args, "sectionIdx"@)) matches Some(
            section,
        ) && plan::nth(json::elements(seats), json::int_at(args, "seatIdx"@)) matches Some(seat)
            && json::element(es[4]->Call_args, 0) == Some(seat) && json::element(
            es[4]->Call_args,
            1,
        ) == Some(json::int_tree(json::int_at(section, "id"@) as int)),
{
    laws::lemma_reads();
    let p = tools::tool_plan(today, "book_library_seat"@, args, true);
    let then = library::book_seat(today, args);
    assert(p == library::seat_plan(today, args, then));
    let s = lemma_seat_run(today, args, then, es);
    let tail = es.skip(4);
    assert(tail.take(0) =~= Seq::empty());
    assert(tail.take(tail.len() as int) =~= tail);
    assert(es.len() > 4);
    laws::lemma_rest_take(then(s), tail, 0);
    if es.len() > 5 {
        laws::lemma_rest_take(then(s), tail, 1);
    }
    assert(tail[0] == es[4]);
}

/// What the user is shown of a seat is what is booked: where the host answers alike
/// when the summary is made and when the confirmed booking is, the seat that is booked,
/// its section and the day are those that the summary was made from, and the summary
/// calls the day as the booking does.
pub proof fn law_the_seat_shown_is_booked(
    today: Date,
    args: json::Tree,
    es: Seq<host::Exchange>,
    summary: Seq<char>,
    fs: Seq<host::Exchange>,
) -> (s: library::SeatV)
    requires
        plan::rest(tools::tool_plan(today, "book_library_seat"@, args, false), es) == Some(
            plan::confirm("book_library_seat"@, args, summary),
        ),
        plan::rest(tools::tool_plan(today, "book_library_seat"@, args, true), fs) is Some,
        fs.len() > 0,
        laws::is_write_exchange(fs.last()),
        alike(es, fs),
    ensures
        ({
            let dc = config::choice(today, library::day_named(args))->Ok_0;
            &&& summary == library::seat_summary(s, choice_label(dc))
            &&& is_call(
                fs.last(),
                "library"@,
                "book"@,
                json::Tree::Arr(
                    json::no_items().push(s.seat).push(
                        json::int_tree(json::int_at(s.section, "id"@) as int),
                    ).push(json::int_tree(dc as int)),
                ),
            )
        }),
{
    laws::lemma_reads();
    let show = library::confirm_seat(today, args);
    let book = library::book_seat(today, args);
    assert(tools::tool_plan(today, "book_library_seat"@, args, false) == library::seat_plan(
        today,
        args,
        show,
    ));
    assert(tools::tool_plan(today, "book_library_seat"@, args, true) == library::seat_plan(
        today,
        args,
        book,
    ));
    let s = lemma_seat_run(today, args, show, es);
    let t = lemma_seat_run(today, args, book, fs);
    let dc = config::choice(today, library::day_named(args))->Ok_0;
    lemma_same_seat(args, dc, es, s, fs, t);
    let tail = es.skip(4);
    assert(tail.take(0) =~= Seq::empty());
    if es.len() > 4 {
        laws::lemma_rest_take(show(s), tail, 0);
    }
    assert(tail =~= Seq::empty());
    let rest = fs.skip(4);
    assert(rest.take(0) =~= Seq::empty());
    assert(rest.take(rest.len() as int) =~= rest);
    assert(fs.len() > 4);
    laws::lemma_rest_take(book(t), rest, 0);
    if fs.len() > 5 {
        laws::lemma_rest_take(book(t), rest, 1);
    }
    assert(rest[0] == fs[4]);
    s
}

/// The arguments of a booking of the room `x` between two times.
pub open spec fn is_booking(
    args: json::Tree,
    x: rooms::RoomV,
    from: Seq<char>,
    to: Seq<char>,
) -> bool {
    &&& json::element(args, 0) == Some(x.room)
    &&& json::element(args, 1) == Some(json::Tree::Str(from))
    &&& json::element(args, 2) == Some(json::Tree::Str(to))
}

/// A call that, where it books or cancels at all, books that room.
pub open spec fn books_only(
    ns: Seq<char>,
    method: Seq<char>,
    args: json::Tree,
    x: rooms::RoomV,
    from: Seq<char>,
    to: Seq<char>,
) -> bool {
    laws::is_write(ns, method) ==> ns == "libroom"@ && method == "book"@ && is_booking(
        args,
        x,
        from,
        to,
    )
}

/// Whatever the host answers, what the plan books is that room.
pub open spec fn books(p: plan::Plan, x: rooms::RoomV, from: Seq<char>, to: Seq<char>) -> bool
    decreases p,
{
    match p {
        plan::Plan::Done(_) => true,
        plan::Plan::Call { ns, method, args, then } => books_only(ns, method, args, x, from, to)
            && forall|r: host::Reply| books(#[trigger] then(r), x, from, to),
        plan::Plan::Pause { ms, next } => books(*next, x, from, to),
        plan::Plan::Total { amounts, sum } => forall|v: json::Tree|
            books(#[trigger] sum(v), x, from, to),
    }
}

proof fn lemma_rest_books(
    p: plan::Plan,
    es: Seq<host::Exchange>,
    x: rooms::RoomV,
    from: Seq<char>,
    to: Seq<char>,
)
    requires
        books(p, x, from, to),
        plan::rest(p, es) is Some,
    ensures
        books(plan::rest(p, es)->Some_0, x, from, to),
        es.len() > 0 ==> (es.last() matches host::Exchange::Call { ns, method, args, reply }
            ==> books_only(ns, method, args, x, from, to)),
    decreases es.len(),
{
    if es.len() > 0 {
        lemma_rest_books(p, es.drop_last(), x, from, to);
        let q = plan::rest(p, es.drop_last())->Some_0;
        match q {
            plan::Plan::Call { ns, method, args, then } => {
                match es.last() {
                    host::Exchange::Call { ns: n, method: m, args: a, reply } => {
                        assert(books(then(plan::told(reply)), x, from, to));
                    },
                    _ => {},
                }
            },
            plan::Plan::Total { amounts, sum } => {
                match es.last() {
                    host::Exchange::Total { amounts: a, total } => {
                        assert(books(sum(total), x, from, to));
                    },
                    _ => {},
                }
            },
            _ => {},
        }
    }
}

proof fn lemma_members_book(
    x: rooms::RoomV,
    from: Seq<char>,
    to: Seq<char>,
    members: Seq<json::Tree>,
    i: int,
    accounts: Seq<json::Tree>,
)
    ensures
        books(rooms::members_plan(x, from, to, members, i, accounts), x, from, to),
    decreases members.len() - i,
{
    laws::lemma_reads();
    let p = rooms::members_plan(x, from, to, members, i, accounts);
    if 0 <= i < members.len() {
        let word = rooms::member_word(members[i]);
        if word.len() == 0 {
            lemma_members_book(x, from, to, members, i + 1, accounts);
        } else {
            assert forall|r: host::Reply| books(#[trigger] (p->Call_then)(r), x, from, to) by {
                if let Ok(v) = r {
                    if let Some(hit) = rooms::best_hit(json::elements(v), word) {
                        if let Some(n) = rooms::account(hit) {
                            lemma_members_book(
                                x,
                                from,
                                to,
                                members,
                                i + 1,
                                accounts.push(json::int_tree(n as int)),
                            );
                        }
                    }
                }
            }
        }
    } else {
        reveal_with_fuel(books, 3);
    }
}

/// The exchanges begin with the fetching of the room `x`, of the kind `kind`.
pub open spec fn room_fetched(
    indices: json::Tree,
    es: Seq<host::Exchange>,
    kind: json::Tree,
    x: rooms::RoomV,
) -> bool {
    &&& es.len() >= 2
    &&& answer(es[0], "libroom"@, "list"@, plan::none()) matches Some(v) && plan::nth(
        json::elements(v),
        json::int_at(indices, "kindIdx"@),
    ) == Some(kind)
    &&& answer(es[1], "libroom"@, "resources"@, rooms::rooms_args(x.day, kind)) matches Some(v)
        && plan::nth(json::elements(v), json::int_at(indices, "roomIdx"@)) == Some(x.room)
}

/// The room that a run fetched, its kind, and what was left to do then.
proof fn lemma_room_run(
    today: Date,
    indices: json::Tree,
    then: spec_fn(rooms::RoomV) -> plan::Plan,
    es: Seq<host::Exchange>,
) -> (r: (json::Tree, rooms::RoomV))
    requires
        arrived(rooms::room_plan(today, indices, then), es),
    ensures
        rooms::room_day(today, indices) == Ok::<Seq<char>, Seq<char>>(r.1.day),
        room_fetched(indices, es, r.0, r.1),
        plan::rest(then(r.1), es.skip(2)) == plan::rest(
            rooms::room_plan(today, indices, then),
            es,
        ),
{
    laws::lemma_reads();
    let p = rooms::room_plan(today, indices, then);
    let n = es.len();
    assert(es.take(0) =~= Seq::empty());
    assert(es.take(n as int) =~= es);
    assert(n > 0);
    laws::lemma_rest_take(p, es, 0);
    assert(n > 1);
    laws::lemma_rest_take(p, es, 1);
    laws::lemma_rest_split(p, es, 2);
    if n > 2 {
        laws::lemma_rest_take(p, es, 2);
    }
    let day = rooms::room_day(today, indices)->Ok_0;
    let kinds = es[0]->Call_reply->Ok_0;
    let kind = plan::nth(json::elements(kinds), json::int_at(indices, "kindIdx"@))->Some_0;
    let list = es[1]->Call_reply->Ok_0;
    let room = plan::nth(json::elements(list), json::int_at(indices, "roomIdx"@))->Some_0;
    (kind, rooms::RoomV { room, day })
}

proof fn lemma_field_push(
    fields: Seq<(Seq<char>, json::Tree)>,
    f: (Seq<char>, json::Tree),
    key: Seq<char>,
    i: int,
)
    requires
        f.0 != key,
        0 <= i <= fields.len(),
    ensures
        json::field_from(fields.push(f), key, i) == json::field_from(fields, key, i),
    decreases fields.len() - i,
{
    if i < fields.len() {
        lemma_field_push(fields, f, key, i + 1);
    } else {
        assert(json::field_from(fields.push(f), key, i + 1) is None);
    }
}

/// With the index of a kind, the arguments name the same room number and the same day.
proof fn lemma_with_kind(today: Date, args: json::Tree, i: int)
    ensures
        json::int_at(rooms::with_kind(args, i), "roomIdx"@) == json::int_at(args, "roomIdx"@),
        rooms::room_day(today, rooms::with_kind(args, i)) == rooms::room_day(today, args),
{
    reveal_strlit("kindIdx");
    reveal_strlit("roomIdx");
    reveal_strlit("date");
    assert("kindIdx"@[0] == 'k' && "roomIdx"@[0] == 'r' && "date"@[0] == 'd');
    if let json::Tree::Obj(fields) = args {
        let f = ("kindIdx"@, json::Tree::Pos(i as u64));
        lemma_field_push(fields, f, "roomIdx"@, 0);
        lemma_field_push(fields, f, "date"@, 0);
    } else {
        reveal_with_fuel(json::field_from, 2);
    }
}

/// How many calls look for the kind first.
pub open spec fn ahead(args: json::Tree) -> int {
    if json::field(args, "kindIdx"@) is None {
        1
    } else {
        0
    }
}

/// The arguments with the index of the kind, which is looked for in the first answer
/// where they do not hold it.
pub open spec fn indices_of(args: json::Tree, es: Seq<host::Exchange>) -> json::Tree {
    if json::field(args, "kindIdx"@) is None {
        rooms::with_kind(
            args,
            rooms::kind_from(
                json::elements(answer(es[0], "libroom"@, "list"@, plan::none())->Some_0),
                json::text_at(args, "kind"@),
                0,
            ),
        )
    } else {
        args
    }
}

/// The same, where the kind may have to be looked for.
proof fn lemma_libroom_run(
    today: Date,
    args: json::Tree,
    then: spec_fn(rooms::RoomV) -> plan::Plan,
    es: Seq<host::Exchange>,
) -> (r: (json::Tree, rooms::RoomV))
    requires
        arrived(rooms::libroom_plan(today, args, then), es),
    ensures
        es.len() >= ahead(args) + 2,
        ahead(args) == 1 ==> answer(es[0], "libroom"@, "list"@, plan::none()) is Some,
        rooms::room_day(today, args) == Ok::<Seq<char>, Seq<char>>(r.1.day),
        json::int_at(indices_of(args, es), "roomIdx"@) == json::int_at(args, "roomIdx"@),
        room_fetched(indices_of(args, es), es.skip(ahead(args)), r.0, r.1),
        plan::rest(then(r.1), es.skip(ahead(args) + 2)) == plan::rest(
            rooms::libroom_plan(today, args, then),
            es,
        ),
{
    let p = rooms::libroom_plan(today, args, then);
    if json::field(args, "kindIdx"@) is None {
        laws::lemma_reads();
        assert(es.take(0) =~= Seq::empty());
        assert(es.take(es.len() as int) =~= es);
        assert(es.len() > 0);
        laws::lemma_rest_take(p, es, 0);
        laws::lemma_rest_split(p, es, 1);
        if es.len() > 1 {
            laws::lemma_rest_take(p, es, 1);
            assert(es.skip(1).last() == es.last());
        }
        let indices = indices_of(args, es);
        assert(plan::rest(p, es.take(1)) == Some(rooms::room_plan(today, indices, then)));
        let r = lemma_room_run(today, indices, then, es.skip(1));
        assert(es.skip(1).skip(2) =~= es.skip(3));
        lemma_with_kind(
            today,
            args,
            rooms::kind_from(
                json::elements(answer(es[0], "libroom"@, "list"@, plan::none())->Some_0),
                json::text_at(args, "kind"@),
                0,
            ),
        );
        r
    } else {
        assert(es.skip(0) =~= es);
        lemma_room_run(today, args, then, es)
    }
}

/// Where the host answers alike, the same room is fetched.
proof fn lemma_same_room(
    today: Date,
    args: json::Tree,
    es: Seq<host::Exchange>,
    x: (json::Tree, rooms::RoomV),
    fs: Seq<host::Exchange>,
    y: (json::Tree, rooms::RoomV),
)
    requires
        es.len() >= ahead(args) + 2,
        fs.len() >= ahead(args) + 2,
        ahead(args) == 1 ==> answer(es[0], "libroom"@, "list"@, plan::none()) is Some,
        ahead(args) == 1 ==> answer(fs[0], "libroom"@, "list"@, plan::none()) is Some,
        x.1.day == y.1.day,
        room_fetched(indices_of(args, es), es.skip(ahead(args)), x.0, x.1),
        room_fetched(indices_of(args, fs), fs.skip(ahead(args)), y.0, y.1),
        alike(es, fs),
    ensures
        x == y,
{
    laws::lemma_reads();
    let k = ahead(args);
    assert(agree(es[0], fs[0]));
    assert(indices_of(args, es) == indices_of(args, fs));
    assert(es.skip(k)[0] == es[k] && fs.skip(k)[0] == fs[k]);
    assert(es.skip(k)[1] == es[k + 1] && fs.skip(k)[1] == fs[k + 1]);
    assert(agree(es[k], fs[k]));
    assert(agree(es[k + 1], fs[k + 1]));
}

/// The tools by which rooms are booked, and bookings cancelled, have names of their own.
proof fn lemma_names()
    ensures
        "book_libroom"@ != "book_library_seat"@,
        "book_libroom"@ != "cancel_library_booking"@,
        "cancel_library_booking"@ != "book_library_seat"@,
        "cancel_libroom_booking"@ != "book_library_seat"@,
        "cancel_libroom_booking"@ != "cancel_library_booking"@,
        "cancel_libroom_booking"@ != "book_libroom"@,
{
    reveal_strlit("book_library_seat");
    reveal_strlit("cancel_library_booking");
    reveal_strlit("book_libroom");
    reveal_strlit("cancel_libroom_booking");
    assert("book_libroom"@.len() == 12 && "book_library_seat"@.len() == 17);
    assert("cancel_library_booking"@.len() == 22 && "cancel_libroom_booking"@.len() == 22);
    assert("cancel_library_booking"@[11] == 'a' && "cancel_libroom_booking"@[11] == 'o');
}

/// The call that books a room books the one that was fetched, between the times that
/// were asked for.
proof fn lemma_room_booked(
    args: json::Tree,
    x: rooms::RoomV,
    tail: Seq<host::Exchange>,
) -> (times: ((u32, u32), (u32, u32)))
    requires
        plan::rest(rooms::book_room(args)(x), tail) is Some,
        tail.len() > 0,
        laws::is_write_exchange(tail.last()),
    ensures
        config::clock_time(json::text_at(args, "start"@)) == Some(times.0),
        config::clock_time(json::text_at(args, "end"@)) == Some(times.1),
        tail.last() matches host::Exchange::Call { ns, method, args: a, reply } && ns == "libroom"@
            && method == "book"@ && is_booking(
            a,
            x,
            rooms::moment(x.day, times.0),
            rooms::moment(x.day, times.1),
        ),
{
    let p = rooms::book_room(args)(x);
    assert(tail.take(0) =~= Seq::empty());
    laws::lemma_rest_take(p, tail, 0);
    let start = config::clock_time(json::text_at(args, "start"@))->Some_0;
    let end = config::clock_time(json::text_at(args, "end"@))->Some_0;
    let from = rooms::moment(x.day, start);
    let to = rooms::moment(x.day, end);
    let members = json::elements_of(json::field(args, "members"@));
    assert(p == rooms::members_plan(x, from, to, members, 0, json::no_items()));
    lemma_members_book(x, from, to, members, 0, json::no_items());
    lemma_rest_books(p, tail, x, from, to);
    (start, end)
}

/// A room that is booked is the very object that the host has in its list of rooms, at
/// the place that was asked for.
pub proof fn law_booked_room_is_the_hosts(today: Date, args: json::Tree, es: Seq<host::Exchange>)
    requires
        plan::rest(tools::tool_plan(today, "book_libroom"@, args, true), es) is Some,
        es.len() > 0,
        laws::is_write_exchange(es.last()),
    ensures
        ({
            let k = ahead(args) + 1;
            &&& es.len() > k + 1
            &&& es[k] matches host::Exchange::Call { ns, method, args: a, reply: Ok(list) }
                && plan::nth(json::elements(list), json::int_at(args, "roomIdx"@)) matches Some(
                room,
            ) && json::element(es.last()->Call_args, 0) == Some(room)
        }),
{
    laws::lemma_reads();
    lemma_names();
    let then = rooms::book_room(args);
    assert(tools::tool_plan(today, "book_libroom"@, args, true) == rooms::libroom_plan(
        today,
        args,
        then,
    ));
    let (kind, x) = lemma_libroom_run(today, args, then, es);
    let k = ahead(args);
    assert(es.skip(k)[0] == es[k] && es.skip(k)[1] == es[k + 1]);
    let tail = es.skip(k + 2);
    assert(es.last() == es[es.len() - 1]);
    assert(es.len() > k + 2);
    assert(tail.last() == es.last());
    let times = lemma_room_booked(args, x, tail);
}

/// What the user is shown of a room is what is booked: where the host answers alike when
/// the summary is made and when the confirmed booking is, the room and the day that are
/// booked are those that the summary was made from, between the times that it shows.
pub proof fn law_the_room_shown_is_booked(
    today: Date,
    args: json::Tree,
    es: Seq<host::Exchange>,
    summary: Seq<char>,
    fs: Seq<host::Exchange>,
) -> (r: (rooms::RoomV, ((u32, u32), (u32, u32))))
    requires
        plan::rest(tools::tool_plan(today, "book_libroom"@, args, false), es) == Some(
            plan::confirm("book_libroom"@, args, summary),
        ),
        plan::rest(tools::tool_plan(today, "book_libroom"@, args, true), fs) is Some,
        fs.len() > 0,
        laws::is_write_exchange(fs.last()),
        alike(es, fs),
    ensures
        summary == rooms::room_summary(r.0, args),
        config::clock_time(json::text_at(args, "start"@)) == Some(r.1.0),
        config::clock_time(json::text_at(args, "end"@)) == Some(r.1.1),
        fs.last() matches host::Exchange::Call { ns, method, args: a, reply } && ns == "libroom"@
            && method == "book"@ && is_booking(
            a,
            r.0,
            rooms::moment(r.0.day, r.1.0),
            rooms::moment(r.0.day, r.1.1),
        ),
{
    laws::lemma_reads();
    lemma_names();
    let show = rooms::confirm_room(args);
    let book = rooms::book_room(args);
    assert(tools::tool_plan(today, "book_libroom"@, args, false) == rooms::libroom_plan(
        today,
        args,
        show,
    ));
    assert(tools::tool_plan(today, "book_libroom"@, args, true) == rooms::libroom_plan(
        today,
        args,
        book,
    ));
    let x = lemma_libroom_run(today, args, show, es);
    let y = lemma_libroom_run(today, args, book, fs);
    lemma_same_room(today, args, es, x, fs, y);
    let k = ahead(args);
    let shown = es.skip(k + 2);
    assert(shown.take(0) =~= Seq::empty());
    if shown.len() > 0 {
        laws::lemma_rest_take(show(x.1), shown, 0);
    }
    assert(shown =~= Seq::empty());
    assert(fs.skip(k)[0] == fs[k] && fs.skip(k)[1] == fs[k + 1]);
    let tail = fs.skip(k + 2);
    assert(fs.len() > k + 2);
    assert(tail.last() == fs.last());
    let times = lemma_room_booked(args, x.1, tail);
    (x.1, times)
}

/// What the user is shown of a booking is what is cancelled: where the host answers
/// alike when the summary is made and when the confirmed cancelling is, the record that
/// is cancelled is the one that the summary was made from.
pub proof fn law_the_booking_shown_is_cancelled(
    today: Date,
    name: Seq<char>,
    args: json::Tree,
    es: Seq<host::Exchange>,
    summary: Seq<char>,
    fs: Seq<host::Exchange>,
) -> (rec: json::Tree)
    requires
        name == "cancel_library_booking"@ || name == "cancel_libroom_booking"@,
        plan::rest(tools::tool_plan(today, name, args, false), es) == Some(
            plan::confirm(name, args, summary),
        ),
        plan::rest(tools::tool_plan(today, name, args, true), fs) is Some,
        fs.len() > 0,
        laws::is_write_exchange(fs.last()),
        alike(es, fs),
    ensures
        name == "cancel_library_booking"@ ==> summary == library::cancel_summary(rec) && is_call(
            fs.last(),
            "library"@,
            "cancel"@,
            json::Tree::Arr(json::no_items().push(json::Tree::Str(library::cancel_key(rec)))),
        ),
        name == "cancel_libroom_booking"@ ==> summary == rooms::cancel_summary(rec) && is_call(
            fs.last(),
            "libroom"@,
            "cancel"@,
            json::Tree::Arr(
                json::no_items().push(json::Tree::Str(json::text_at(rec, "uuid"@))),
            ),
        ),
{
    laws::lemma_reads();
    lemma_names();
    let p = tools::tool_plan(today, name, args, false);
    let q = tools::tool_plan(today, name, args, true);
    assert(es.take(0) =~= Seq::empty());
    assert(es.take(es.len() as int) =~= es);
    assert(fs.take(0) =~= Seq::empty());
    assert(fs.take(fs.len() as int) =~= fs);
    assert(es.len() > 0);
    laws::lemma_rest_take(p, es, 0);
    if es.len() > 1 {
        laws::lemma_rest_take(p, es, 1);
    }
    laws::lemma_rest_take(q, fs, 0);
    assert(fs.len() > 1);
    laws::lemma_rest_take(q, fs, 1);
    if fs.len() > 2 {
        laws::lemma_rest_take(q, fs, 2);
    }
    assert(agree(es[0], fs[0]));
    let records = json::elements(es[0]->Call_reply->Ok_0);
    if name == "cancel_library_booking"@ {
        plan::nth(records, json::int_at(args, "bookingIdx"@))->Some_0
    } else {
        plan::nth(records, json::int_at(args, "recordIdx"@))->Some_0
    }
}

} // verus!
