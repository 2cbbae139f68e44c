//! What holds of every run of the tools.

use crate::config;
use crate::date;
use crate::date::Date;
use crate::host;
use crate::json;
use crate::text;
use crate::tools;
use crate::tools::campus;
use crate::tools::classrooms;
use crate::tools::defs;
use crate::tools::library;
use crate::tools::plan;
use crate::tools::rooms;
use vstd::prelude::*;

verus! {

/// A call that changes nothing outside.
pub open spec fn is_read(ns: Seq<char>, method: Seq<char>) -> bool {
    ||| ns == "session"@ && (method == "status"@ || method == "username"@)
    ||| ns == "user"@ && method == "info"@
    ||| ns == "info"@ && (method == "schedule"@ || method == "exams"@ || method == "deadlines"@
        || method == "report"@ || method == "schoolCalendar"@ || method == "news"@ || method
        == "searchNews"@ || method == "newsSub"@ || method == "newsDetail"@ || method
        == "classroomList"@ || method == "classroomState"@)
    ||| ns == "card"@ && (method == "info"@ || method == "transactions"@)
    ||| ns == "dorm"@ && method == "elePayRecord"@
    ||| ns == "network"@ && (method == "balance"@ || method == "deviceCount"@)
    ||| ns == "library"@ && (method == "list"@ || method == "floors"@ || method == "sections"@
        || method == "seats"@ || method == "records"@)
    ||| ns == "libroom"@ && (method == "list"@ || method == "resources"@ || method == "records"@
        || method == "fuzzyMember"@)
    ||| ns == "nav"@ && method == "go"@
    ||| ns == "ui"@ && method == "toast"@
}

/// A call that books or cancels something.
pub open spec fn is_write(ns: Seq<char>, method: Seq<char>) -> bool {
    (ns == "library"@ || ns == "libroom"@) && (method == "book"@ || method == "cancel"@)
}

/// A call that a run may make: one that changes nothing, or, where the user has
/// confirmed, one that books or cancels.
pub open spec fn may_call(ns: Seq<char>, method: Seq<char>, confirmed: bool) -> bool {
    is_read(ns, method) || (confirmed && is_write(ns, method))
}

/// Whatever the host answers, the plan makes only such calls, and it comes to an error,
/// or to what the user is to confirm where there is a call to confirm, and to a result
/// where there is none.
pub open spec fn within(p: plan::Plan, confirmed: bool, ask: Option<(Seq<char>, json::Tree)>) -> bool
    decreases p,
{
    match p {
        plan::Plan::Done(end) => match end {
            Ok(plan::OutV::Confirm { tool, args, summary }) => ask == Some((tool, args)),
            Ok(plan::OutV::Text(_)) => ask is None,
            Err(_) => true,
        },
        plan::Plan::Call { ns, method, args, then } => may_call(ns, method, confirmed) && forall|
            r: host::Reply,
        | within(#[trigger] then(r), confirmed, ask),
        plan::Plan::Pause { ms, next } => within(*next, confirmed, ask),
        plan::Plan::Total { amounts, sum } => forall|v: json::Tree| within(#[trigger] sum(v), confirmed, ask),
    }
}

/// An exchange is one that a run may have.
pub open spec fn may_exchange(e: host::Exchange, confirmed: bool) -> bool {
    match e {
        host::Exchange::Call { ns, method, args, reply } => may_call(ns, method, confirmed),
        _ => true,
    }
}

proof fn lemma_rest_within(
    p: plan::Plan,
    es: Seq<host::Exchange>,
    confirmed: bool,
    ask: Option<(Seq<char>, json::Tree)>,
)
    requires
        within(p, confirmed, ask),
        plan::rest(p, es) is Some,
    ensures
        within(plan::rest(p, es)->Some_0, confirmed, ask),
        forall|i: int| 0 <= i < es.len() ==> may_exchange(#[trigger] es[i], confirmed),
    decreases es.len(),
{
    if es.len() > 0 {
        lemma_rest_within(p, es.drop_last(), confirmed, ask);
        let q = plan::rest(p, es.drop_last())->Some_0;
        let e = es.last();
        match q {
            plan::Plan::Call { ns, method, args, then } => {
                match e {
                    host::Exchange::Call { ns: n, method: m, args: a, reply } => {
                        assert(within(then(plan::told(reply)), confirmed, ask));
                    },
                    _ => {},
                }
            },
            plan::Plan::Total { amounts, sum } => {
                match e {
                    host::Exchange::Total { amounts: a, total } => {
                        assert(within(sum(total), confirmed, ask));
                    },
                    _ => {},
                }
            },
            _ => {},
        }
        assert forall|i: int| 0 <= i < es.len() implies may_exchange(
            #[trigger] es[i],
            confirmed,
        ) by {
            if i < es.len() - 1 {
                assert(es.drop_last()[i] == es[i]);
            }
        }
    }
}

proof fn lemma_survey(libs: Seq<json::Tree>, dc: u8, i: int, out: Seq<json::Tree>, confirmed: bool)
    ensures
        within(library::survey_plan(libs, dc, i, out), confirmed, None),
    decreases libs.len() - i,
{
    if 0 <= i < libs.len() {
        let p = library::survey_plan(libs, dc, i, out);
        assert forall|r: host::Reply| within(#[trigger] (p->Call_then)(r), confirmed, None) by {
            lemma_survey(
                libs,
                dc,
                i + 1,
                out.push(library::library_row(i, libs[i], r)),
                confirmed,
            );
        }
    }
}

proof fn lemma_sections(
    lib: json::Tree,
    floor: json::Tree,
    dc: u8,
    sections: Seq<json::Tree>,
    i: int,
    out: Seq<json::Tree>,
    confirmed: bool,
)
    ensures
        within(library::sections_plan(lib, floor, dc, sections, i, out), confirmed, None),
    decreases sections.len() - i,
{
    if 0 <= i < sections.len() {
        let p = library::sections_plan(lib, floor, dc, sections, i, out);
        assert forall|r: host::Reply| within(#[trigger] (p->Call_then)(r), confirmed, None) by {
            if let Ok(v) = r {
                lemma_sections(
                    lib,
                    floor,
                    dc,
                    sections,
                    i + 1,
                    out.push(library::section_row(i, sections[i], json::elements(v))),
                    confirmed,
                );
            }
        }
    }
}

proof fn lemma_kinds(
    kinds: Seq<json::Tree>,
    chosen: Seq<int>,
    day: Seq<char>,
    i: int,
    out: Seq<json::Tree>,
    confirmed: bool,
)
    ensures
        within(rooms::kinds_plan(kinds, chosen, day, i, out), confirmed, None),
    decreases chosen.len() - i,
{
    if 0 <= i < chosen.len() {
        let p = rooms::kinds_plan(kinds, chosen, day, i, out);
        let k = kinds[chosen[i]];
        let fetch = if i > 0 {
            *p->Pause_next
        } else {
            p
        };
        assert forall|r: host::Reply| within(#[trigger] (fetch->Call_then)(r), confirmed, None) by {
            match r {
                Ok(v) => {
                    lemma_kinds(
                        kinds,
                        chosen,
                        day,
                        i + 1,
                        out.push(rooms::rooms_row(chosen[i], k, day, v)),
                        confirmed,
                    );
                },
                Err(_) => {
                    let again = *(fetch->Call_then)(r)->Pause_next;
                    assert forall|r: host::Reply| within(
                        #[trigger] (again->Call_then)(r),
                        confirmed, None) by {
                        if let Ok(v) = r {
                            lemma_kinds(
                                kinds,
                                chosen,
                                day,
                                i + 1,
                                out.push(rooms::rooms_row(chosen[i], k, day, v)),
                                confirmed,
                            );
                        }
                    }
                    assert(within(again, confirmed, None));
                    assert(within((fetch->Call_then)(r), confirmed, None));
                },
            }
        }
        assert(within(fetch, confirmed, None));
    }
}

proof fn lemma_members(
    x: rooms::RoomV,
    from: Seq<char>,
    to: Seq<char>,
    members: Seq<json::Tree>,
    i: int,
    accounts: Seq<json::Tree>,
)
    ensures
        within(rooms::members_plan(x, from, to, members, i, accounts), true, None),
    decreases members.len() - i,
{
    let p = rooms::members_plan(x, from, to, members, i, accounts);
    if 0 <= i < members.len() {
        let word = rooms::member_word(members[i]);
        if word.len() == 0 {
            lemma_members(x, from, to, members, i + 1, accounts);
        } else {
            assert forall|r: host::Reply| within(#[trigger] (p->Call_then)(r), true, None) by {
                if let Ok(v) = r {
                    if let Some(hit) = rooms::best_hit(json::elements(v), word) {
                        if let Some(n) = rooms::account(hit) {
                            lemma_members(
                                x,
                                from,
                                to,
                                members,
                                i + 1,
                                accounts.push(json::int_tree(n as int)),
                            );
                        }
                    }
                }
            }
        }
    } else {
        reveal_with_fuel(within, 3);
    }
}

proof fn lemma_lookups(today: Date, name: Seq<char>, args: json::Tree, confirmed: bool)
    ensures
        within(tools::lookup_plan(today, name, args), confirmed, None),
{
    assert forall|libs: Seq<json::Tree>, dc: u8, i: int, out: Seq<json::Tree>|
        within(#[trigger] library::survey_plan(libs, dc, i, out), confirmed, None) by {
        lemma_survey(libs, dc, i, out, confirmed);
    }
    assert forall|
        lib: json::Tree,
        floor: json::Tree,
        dc: u8,
        sections: Seq<json::Tree>,
        i: int,
        out: Seq<json::Tree>,
    |
        within(
            #[trigger] library::sections_plan(lib, floor, dc, sections, i, out),
            confirmed, None) by {
        lemma_sections(lib, floor, dc, sections, i, out, confirmed);
    }
    assert forall|
        kinds: Seq<json::Tree>,
        chosen: Seq<int>,
        day: Seq<char>,
        i: int,
        out: Seq<json::Tree>,
    |
        within(#[trigger] rooms::kinds_plan(kinds, chosen, day, i, out), confirmed, None) by {
        lemma_kinds(kinds, chosen, day, i, out, confirmed);
    }
    assert(within(campus::profile_plan(), confirmed, None)) by {
        reveal_with_fuel(within, 5);
    }
    assert(within(campus::schedule_plan(today, args), confirmed, None)) by {
        reveal_with_fuel(within, 3);
    }
    assert(within(campus::lookup_plan("info"@, "exams"@), confirmed, None)) by {
        reveal_with_fuel(within, 3);
    }
    assert(within(campus::lookup_plan("info"@, "deadlines"@), confirmed, None)) by {
        reveal_with_fuel(within, 3);
    }
    assert(within(campus::lookup_plan("info"@, "report"@), confirmed, None)) by {
        reveal_with_fuel(within, 3);
    }
    assert(within(campus::lookup_plan("info"@, "schoolCalendar"@), confirmed, None)) by {
        reveal_with_fuel(within, 3);
    }
    assert(within(campus::balance_plan(), confirmed, None)) by {
        reveal_with_fuel(within, 3);
    }
    assert(within(campus::transactions_plan(today, args), confirmed, None)) by {
        reveal_with_fuel(within, 4);
    }
    assert(within(campus::payments_plan(), confirmed, None)) by {
        reveal_with_fuel(within, 3);
    }
    assert(within(campus::network_plan(), confirmed, None)) by {
        reveal_with_fuel(within, 4);
    }
    assert(within(campus::news_plan(args), confirmed, None)) by {
        reveal_with_fuel(within, 3);
    }
    assert(within(campus::subscribed_plan(args), confirmed, None)) by {
        reveal_with_fuel(within, 3);
    }
    assert(within(campus::article_plan(args), confirmed, None)) by {
        reveal_with_fuel(within, 3);
    }
    assert(within(classrooms::classrooms_plan(args), confirmed, None)) by {
        reveal_with_fuel(within, 4);
    }
    assert(within(library::library_plan(today, args), confirmed, None)) by {
        reveal_with_fuel(within, 2);
    }
    assert(within(library::seats_plan(today, args), confirmed, None)) by {
        reveal_with_fuel(within, 4);
    }
    assert(within(campus::lookup_plan("library"@, "records"@), confirmed, None)) by {
        reveal_with_fuel(within, 3);
    }
    assert(within(rooms::librooms_plan(today, args), confirmed, None)) by {
        reveal_with_fuel(within, 3);
    }
    assert(within(campus::lookup_plan("libroom"@, "records"@), confirmed, None)) by {
        reveal_with_fuel(within, 3);
    }
    assert(within(campus::navigate_plan(args), confirmed, None)) by {
        reveal_with_fuel(within, 3);
    }
    assert(within(campus::notify_plan(args), confirmed, None)) by {
        reveal_with_fuel(within, 3);
    }
}

proof fn lemma_summaries(today: Date, name: Seq<char>, args: json::Tree)
    requires
        defs::writes(name),
    ensures
        within(tools::summary_plan(today, name, args), false, Some((name, args))),
{
    let ask = Some((name, args));
    if name == "book_library_seat"@ {
        assert(within(
            library::seat_plan(today, args, library::confirm_seat(today, args)),
            false,
            ask,
        )) by {
            reveal_with_fuel(within, 5);
        }
    } else if name == "cancel_library_booking"@ {
        reveal_with_fuel(within, 3);
    } else if name == "book_libroom"@ {
        assert(within(rooms::libroom_plan(today, args, rooms::confirm_room(args)), false, ask)) by {
            reveal_with_fuel(within, 4);
        }
    } else {
        reveal_with_fuel(within, 3);
    }
}

proof fn lemma_writes(today: Date, name: Seq<char>, args: json::Tree)
    ensures
        within(tools::write_plan(today, name, args), true, None),
{
    assert forall|
        x: rooms::RoomV,
        from: Seq<char>,
        to: Seq<char>,
        members: Seq<json::Tree>,
        i: int,
        accounts: Seq<json::Tree>,
    |
        within(#[trigger] rooms::members_plan(x, from, to, members, i, accounts), true, None) by {
        lemma_members(x, from, to, members, i, accounts);
    }
    assert(within(
        library::seat_plan(today, args, library::book_seat(today, args)),
        true,
        None,
    )) by {
        reveal_with_fuel(within, 6);
    }
    assert(within(library::cancel_plan(args), true, None)) by {
        reveal_with_fuel(within, 4);
    }
    assert(within(rooms::libroom_plan(today, args, rooms::book_room(args)), true, None)) by {
        reveal_with_fuel(within, 4);
    }
    assert(within(rooms::cancel_plan(args), true, None)) by {
        reveal_with_fuel(within, 4);
    }
}

/// What the user is asked to confirm by a run.
pub open spec fn to_confirm(name: Seq<char>, args: json::Tree, confirmed: bool) -> Option<
    (Seq<char>, json::Tree),
> {
    if defs::writes(name) && !confirmed {
        Some((name, args))
    } else {
        None
    }
}

proof fn lemma_tool(today: Date, name: Seq<char>, args: json::Tree, confirmed: bool)
    ensures
        within(
            tools::tool_plan(today, name, args, confirmed),
            confirmed,
            to_confirm(name, args, confirmed),
        ),
{
    if defs::writes(name) {
        if confirmed {
            lemma_writes(today, name, args);
        } else {
            lemma_summaries(today, name, args);
        }
    } else {
        lemma_lookups(today, name, args, confirmed);
    }
}

/// Whatever the host answers, a tool makes only calls that are listed here: those that
/// change nothing, and, once the user has confirmed, those that book and cancel.
/// Nothing pays, and nothing changes a password.
pub proof fn law_tools_make_only_listed_calls(
    today: Date,
    name: Seq<char>,
    args: json::Tree,
    confirmed: bool,
    es: Seq<host::Exchange>,
    i: int,
)
    requires
        plan::rest(tools::tool_plan(today, name, args, confirmed), es) is Some,
        0 <= i < es.len(),
    ensures
        may_exchange(es[i], confirmed),
{
    lemma_tool(today, name, args, confirmed);
    lemma_rest_within(
        tools::tool_plan(today, name, args, confirmed),
        es,
        confirmed,
        to_confirm(name, args, confirmed),
    );
}

/// What the user is asked to confirm is the very call that was made: a tool that
/// changes something outside, with its arguments. Such a tool comes to nothing else
/// before they confirm, and no other tool asks.
pub proof fn law_confirmation_is_for_the_call(
    today: Date,
    name: Seq<char>,
    args: json::Tree,
    confirmed: bool,
    es: Seq<host::Exchange>,
    end: plan::OutV,
)
    requires
        plan::rest(tools::tool_plan(today, name, args, confirmed), es) == Some(
            plan::Plan::Done(Ok(end)),
        ),
    ensures
        end matches plan::OutV::Confirm { tool, args: a, summary } ==> tool == name && a == args
            && defs::writes(name) && !confirmed,
        end is Text ==> !defs::writes(name) || confirmed,
{
    lemma_tool(today, name, args, confirmed);
    lemma_rest_within(
        tools::tool_plan(today, name, args, confirmed),
        es,
        confirmed,
        to_confirm(name, args, confirmed),
    );
}

/// No call is both one that changes nothing and one that books or cancels.
proof fn lemma_read_is_no_write(ns: Seq<char>, method: Seq<char>)
    requires
        is_read(ns, method),
    ensures
        !is_write(ns, method),
{
    reveal_strlit("library");
    reveal_strlit("libroom");
    reveal_strlit("session");
    reveal_strlit("user");
    reveal_strlit("info");
    reveal_strlit("card");
    reveal_strlit("dorm");
    reveal_strlit("network");
    reveal_strlit("nav");
    reveal_strlit("ui");
    assert("library"@[0] == 'l' && "libroom"@[0] == 'l');
    assert("session"@[0] == 's' && "user"@[0] == 'u' && "info"@[0] == 'i' && "card"@[0] == 'c');
    assert("dorm"@[0] == 'd' && "network"@[0] == 'n' && "nav"@[0] == 'n' && "ui"@[0] == 'u');
    reveal_strlit("book");
    reveal_strlit("cancel");
    reveal_strlit("list");
    reveal_strlit("floors");
    reveal_strlit("sections");
    reveal_strlit("seats");
    reveal_strlit("records");
    reveal_strlit("resources");
    reveal_strlit("fuzzyMember");
    assert("book"@[0] == 'b' && "cancel"@[0] == 'c');
    assert("list"@[0] == 'l' && "floors"@[0] == 'f' && "sections"@[0] == 's' && "seats"@[0] == 's');
    assert("records"@[0] == 'r' && "resources"@[0] == 'r' && "fuzzyMember"@[0] == 'f');
}

/// Without the user's confirmation nothing is booked and nothing cancelled, whatever
/// the tool, its arguments and the answers of the host.
pub proof fn law_nothing_is_written_unconfirmed(
    today: Date,
    name: Seq<char>,
    args: json::Tree,
    es: Seq<host::Exchange>,
    i: int,
)
    requires
        plan::rest(tools::tool_plan(today, name, args, false), es) is Some,
        0 <= i < es.len(),
        es[i] is Call,
    ensures
        !is_write(es[i]->Call_ns, es[i]->Call_method),
{
    law_tools_make_only_listed_calls(today, name, args, false, es, i);
    lemma_read_is_no_write(es[i]->Call_ns, es[i]->Call_method);
}

/// Only a tool that the user has to confirm ever books or cancels.
pub proof fn law_lookups_write_nothing(
    today: Date,
    name: Seq<char>,
    args: json::Tree,
    confirmed: bool,
    es: Seq<host::Exchange>,
    i: int,
)
    requires
        !defs::writes(name),
        plan::rest(tools::tool_plan(today, name, args, confirmed), es) is Some,
        0 <= i < es.len(),
        es[i] is Call,
    ensures
        !is_write(es[i]->Call_ns, es[i]->Call_method),
{
    law_nothing_is_written_unconfirmed(today, name, args, es, i);
}

/// Whatever the host answers, the plan is at its end after a call that books or
/// cancels.
pub open spec fn write_ends(p: plan::Plan) -> bool
    decreases p,
{
    match p {
        plan::Plan::Done(_) => true,
        plan::Plan::Call { ns, method, args, then } => forall|r: host::Reply|
            write_ends(#[trigger] then(r)) && (is_write(ns, method) ==> then(r) is Done),
        plan::Plan::Pause { ms, next } => write_ends(*next),
        plan::Plan::Total { amounts, sum } => forall|v: json::Tree| write_ends(#[trigger] sum(v)),
    }
}

pub open spec fn is_write_exchange(e: host::Exchange) -> bool {
    match e {
        host::Exchange::Call { ns, method, args, reply } => is_write(ns, method),
        _ => false,
    }
}

proof fn lemma_rest_write_ends(p: plan::Plan, es: Seq<host::Exchange>)
    requires
        write_ends(p),
        plan::rest(p, es) is Some,
    ensures
        write_ends(plan::rest(p, es)->Some_0),
        es.len() > 0 && is_write_exchange(es.last()) ==> plan::rest(p, es)->Some_0 is Done,
        forall|i: int| 0 <= i < es.len() && is_write_exchange(#[trigger] es[i]) ==> i == es.len()
            - 1,
    decreases es.len(),
{
    if es.len() > 0 {
        lemma_rest_write_ends(p, es.drop_last());
        let q = plan::rest(p, es.drop_last())->Some_0;
        let e = es.last();
        match q {
            plan::Plan::Call { ns, method, args, then } => {
                match e {
                    host::Exchange::Call { ns: n, method: m, args: a, reply } => {
                        assert(write_ends(then(plan::told(reply))));
                    },
                    _ => {},
                }
            },
            plan::Plan::Total { amounts, sum } => {
                match e {
                    host::Exchange::Total { amounts: a, total } => {
                        assert(write_ends(sum(total)));
                    },
                    _ => {},
                }
            },
            _ => {},
        }
        assert forall|i: int|
            0 <= i < es.len() && is_write_exchange(#[trigger] es[i]) implies i == es.len() - 1 by {
            if i < es.len() - 1 {
                assert(es.drop_last()[i] == es[i]);
            }
        }
    }
}

pub proof fn lemma_reads()
    ensures
        !is_write("library"@, "list"@),
        !is_write("library"@, "floors"@),
        !is_write("library"@, "sections"@),
        !is_write("library"@, "seats"@),
        !is_write("library"@, "records"@),
        !is_write("libroom"@, "list"@),
        !is_write("libroom"@, "resources"@),
        !is_write("libroom"@, "records"@),
        !is_write("libroom"@, "fuzzyMember"@),
{
    lemma_read_is_no_write("library"@, "list"@);
    lemma_read_is_no_write("library"@, "floors"@);
    lemma_read_is_no_write("library"@, "sections"@);
    lemma_read_is_no_write("library"@, "seats"@);
    lemma_read_is_no_write("library"@, "records"@);
    lemma_read_is_no_write("libroom"@, "list"@);
    lemma_read_is_no_write("libroom"@, "resources"@);
    lemma_read_is_no_write("libroom"@, "records"@);
    lemma_read_is_no_write("libroom"@, "fuzzyMember"@);
}

proof fn lemma_members_end(
    x: rooms::RoomV,
    from: Seq<char>,
    to: Seq<char>,
    members: Seq<json::Tree>,
    i: int,
    accounts: Seq<json::Tree>,
)
    ensures
        write_ends(rooms::members_plan(x, from, to, members, i, accounts)),
    decreases members.len() - i,
{
    lemma_reads();
    let p = rooms::members_plan(x, from, to, members, i, accounts);
    if 0 <= i < members.len() {
        let word = rooms::member_word(members[i]);
        if word.len() == 0 {
            lemma_members_end(x, from, to, members, i + 1, accounts);
        } else {
            assert forall|r: host::Reply| write_ends(#[trigger] (p->Call_then)(r)) by {
                if let Ok(v) = r {
                    if let Some(hit) = rooms::best_hit(json::elements(v), word) {
                        if let Some(n) = rooms::account(hit) {
                            lemma_members_end(
                                x,
                                from,
                                to,
                                members,
                                i + 1,
                                accounts.push(json::int_tree(n as int)),
                            );
                        }
                    }
                }
            }
        }
    } else {
        reveal_with_fuel(write_ends, 3);
    }
}

/// A run books or cancels at most once, and that is the last thing it asks.
pub proof fn law_a_write_ends_the_run(
    today: Date,
    name: Seq<char>,
    args: json::Tree,
    confirmed: bool,
    es: Seq<host::Exchange>,
    i: int,
)
    requires
        plan::rest(tools::tool_plan(today, name, args, confirmed), es) is Some,
        0 <= i < es.len(),
        is_write_exchange(es[i]),
    ensures
        i == es.len() - 1,
{
    if !defs::writes(name) || !confirmed {
        law_nothing_is_written_unconfirmed(today, name, args, es, i);
    } else {
        lemma_reads();
        assert forall|
            x: rooms::RoomV,
            from: Seq<char>,
            to: Seq<char>,
            members: Seq<json::Tree>,
            k: int,
            accounts: Seq<json::Tree>,
        |
            write_ends(#[trigger] rooms::members_plan(x, from, to, members, k, accounts)) by {
            lemma_members_end(x, from, to, members, k, accounts);
        }
        assert(write_ends(tools::write_plan(today, name, args))) by {
            reveal_with_fuel(write_ends, 7);
        }
        lemma_rest_write_ends(tools::tool_plan(today, name, args, confirmed), es);
    }
}

/// After some exchanges and some more, a plan is where the latter take it from where
/// the former left it.
pub proof fn lemma_rest_split(p: plan::Plan, es: Seq<host::Exchange>, k: int)
    requires
        plan::rest(p, es) is Some,
        0 <= k <= es.len(),
    ensures
        plan::rest(p, es.take(k)) is Some,
        plan::rest(plan::rest(p, es.take(k))->Some_0, es.skip(k)) == plan::rest(p, es),
    decreases es.len(),
{
    if k == es.len() {
        assert(es.take(k) =~= es);
        assert(es.skip(k) =~= Seq::empty());
    } else {
        lemma_rest_split(p, es.drop_last(), k);
        assert(es.drop_last().take(k) =~= es.take(k));
        assert(es.skip(k).drop_last() =~= es.drop_last().skip(k));
        assert(es.skip(k).last() == es.last());
    }
}

/// After some exchanges and one more, a plan is where the one takes it from where the
/// others left it.
pub proof fn lemma_rest_take(p: plan::Plan, es: Seq<host::Exchange>, k: int)
    requires
        plan::rest(p, es) is Some,
        0 <= k < es.len(),
    ensures
        plan::rest(p, es.take(k)) is Some,
        plan::rest(p, es.take(k + 1)) == plan::step(plan::rest(p, es.take(k))->Some_0, es[k]),
        plan::rest(p, es.take(k + 1)) is Some,
    decreases es.len(),
{
    if k < es.len() - 1 {
        lemma_rest_take(p, es.drop_last(), k);
        assert(es.drop_last().take(k) =~= es.take(k));
        assert(es.drop_last().take(k + 1) =~= es.take(k + 1));
    } else {
        assert(es.take(k + 1) =~= es);
        assert(es.take(k) =~= es.drop_last());
    }
}

/// A timetable without days named is asked for from today on, for a week.
pub proof fn law_timetable_defaults_to_a_week(today: Date, args: json::Tree)
    requires
        today.wf(),
        today.number() + 6 <= date::last_day(),
        text::trimmed(json::text_at(args, "start"@)).len() == 0,
        json::text_at(args, "end"@).len() == 0,
    ensures
        campus::schedule_start(today, args) == Some(today.number()),
        campus::schedule_end(today, args, today.number()) == Some(today.number() + 6),
        campus::schedule_plan(today, args) == plan::ask(
            "info"@,
            "schedule"@,
            campus::day_pair(today.number(), today.number() + 6),
            |v: json::Tree| plan::say(v),
        ),
{
    config::law_named_days_count_from_today(today);
    date::lemma_in_calendar(today);
}

/// A seat without a day named is looked for today; `明天` is tomorrow.
pub proof fn law_seats_are_for_today_or_tomorrow(today: Date, args: json::Tree)
    requires
        today.wf(),
    ensures
        text::trimmed(json::text_at(args, "date"@)).len() == 0 ==> config::choice(
            today,
            library::day_named(args),
        ) == Ok::<u8, Seq<char>>(0),
        today.number() < date::last_day() ==> config::choice(today, "明天"@) == Ok::<u8, Seq<char>>(1),
{
    config::law_named_days_count_from_today(today);
    date::lemma_in_calendar(today);
}

/// What a tool tells the model stays short, however much the host has: so many rows of
/// a list, so many seats of a section, so many characters of an article.
pub proof fn law_what_is_told_stays_short(items: Seq<json::Tree>, n: int, d: json::Tree)
    requires
        n >= 0,
    ensures
        plan::first(items, n).len() <= n,
        plan::first(items, n).is_prefix_of(items),
        library::seat_preview(items, n).len() <= n,
        json::text_at(campus::article(d), "text"@).len() <= 3000 + "…（正文过长已截断）"@.len(),
{
    reveal_with_fuel(json::field_from, 2);
    assert(items.len() <= n ==> items.take(items.len() as int) =~= items);
}

/// What is said of a phrase that names no day that seats are offered for does not speak
/// of tools.
proof fn lemma_choice_error(today: Date, s: Seq<char>)
    ensures
        config::choice(today, s) matches Err(e) ==> e.len() > 0 && e[0] != '未',
{
    reveal_strlit("图书馆座位只支持今天(0)或明天(1)，更远的日期请改天再来查。");
    reveal_strlit("无法理解日期「");
    assert("图书馆座位只支持今天(0)或明天(1)，更远的日期请改天再来查。"@[0] == '图');
    assert("无法理解日期「"@[0] == '无');
}

/// Every tool that the model is offered is known: none of them is answered that there is
/// no such tool.
pub proof fn law_every_offered_tool_is_known(
    today: Date,
    i: int,
    args: json::Tree,
    confirmed: bool,
)
    requires
        0 <= i < defs::tools().len(),
    ensures
        ({
            let name = defs::tools()[i].name;
            tools::tool_plan(today, name, args, confirmed) != plan::fail("未知工具："@ + name)
        }),
{
    let name = defs::tools()[i].name;
    let none = "未知工具："@ + name;
    reveal_strlit("未知工具：");
    assert(none[0] == '未');
    reveal_strlit("无法理解 start 日期");
    reveal_strlit("无法理解 end 日期");
    assert("无法理解 start 日期"@[0] == '无' && "无法理解 end 日期"@[0] == '无');
    lemma_choice_error(today, library::day_named(args));
    reveal_strlit("无法理解日期「");
    assert("无法理解日期「"@[0] == '无');
    assert(rooms::bad_day(json::text_at(args, "date"@))[0] == '无');
    defs::law_write_tools_are_confirmed(i);
}

/// A tool that the model is not offered is refused, and the host is asked nothing.
pub proof fn law_no_other_tool_is_known(
    today: Date,
    name: Seq<char>,
    args: json::Tree,
    confirmed: bool,
)
    requires
        !defs::offered(name),
    ensures
        tools::tool_plan(today, name, args, confirmed) == plan::fail("未知工具："@ + name),
{
    let all = defs::tools();
    assert(all[0].name == "query_profile"@);
    assert(all[1].name == "query_schedule"@);
    assert(all[2].name == "query_exams"@);
    assert(all[3].name == "query_deadlines"@);
    assert(all[4].name == "query_grades"@);
    assert(all[5].name == "query_calendar"@);
    assert(all[6].name == "query_card_balance"@);
    assert(all[7].name == "query_card_transactions"@);
    assert(all[8].name == "query_dorm_ele_records"@);
    assert(all[9].name == "query_network"@);
    assert(all[10].name == "query_news"@);
    assert(all[11].name == "query_subscribed_news"@);
    assert(all[12].name == "read_news_article"@);
    assert(all[13].name == "query_empty_classrooms"@);
    assert(all[14].name == "query_library"@);
    assert(all[15].name == "query_library_seats"@);
    assert(all[16].name == "book_library_seat"@);
    assert(all[17].name == "my_library_bookings"@);
    assert(all[18].name == "cancel_library_booking"@);
    assert(all[19].name == "query_librooms"@);
    assert(all[20].name == "book_libroom"@);
    assert(all[21].name == "my_libroom_bookings"@);
    assert(all[22].name == "cancel_libroom_booking"@);
    assert(all[23].name == "navigate"@);
    assert(all[24].name == "notify"@);
}

} // verus!
