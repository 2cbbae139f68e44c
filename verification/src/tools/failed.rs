//! What a tool does where the host fails.

use crate::date::Date;
use crate::host;
use crate::json;
use crate::json::names;
use crate::tools;
use crate::tools::campus;
use crate::tools::classrooms;
use crate::tools::defs;
use crate::tools::library;
use crate::tools::places;
use crate::tools::plan;
use crate::tools::rooms;
use vstd::prelude::*;

verus! {

/// A call that may fail without an end.
pub type Spared = Option<(Seq<char>, Seq<char>)>;

/// The floors of a library, which is then told without them.
pub open spec fn floors() -> Spared {
    Some(("library"@, "floors"@))
}

/// The rooms of a kind, which are then asked for once more.
pub open spec fn rooms_of_kind() -> Spared {
    Some(("libroom"@, "resources"@))
}

/// The cancelling of a seat, which is then told in its own way.
pub open spec fn cancelling() -> Spared {
    Some(("library"@, "cancel"@))
}

/// The call of a tool that may fail without an end, where it has one.
pub open spec fn spared(name: Seq<char>) -> Spared {
    if name == "query_library"@ {
        Some(("library"@, "floors"@))
    } else if name == "query_librooms"@ {
        Some(("libroom"@, "resources"@))
    } else if name == "cancel_library_booking"@ {
        Some(("library"@, "cancel"@))
    } else {
        None
    }
}

/// Whatever was answered before, a call that fails ends the plan with its error.
pub open spec fn gives_up(p: plan::Plan, spared: Spared) -> bool
    decreases p,
{
    match p {
        plan::Plan::Done(_) => true,
        plan::Plan::Call { ns, method, args, then } => {
            &&& forall|r: host::Reply| gives_up(#[trigger] then(r), spared)
            &&& spared != Some((ns, method)) ==> forall|e: Seq<char>|
                #[trigger] then(Err(e)) == plan::Plan::Done(Err(e))
        },
        plan::Plan::Pause { ms, next } => gives_up(*next, spared),
        plan::Plan::Total { amounts, sum } => forall|v: json::Tree|
            gives_up(#[trigger] sum(v), spared),
    }
}

proof fn lemma_survey(libs: Seq<json::Tree>, dc: u8, i: int, out: Seq<json::Tree>)
    ensures
        gives_up(library::survey_plan(libs, dc, i, out), floors()),
    decreases libs.len() - i,
{
    if 0 <= i < libs.len() {
        let p = library::survey_plan(libs, dc, i, out);
        assert forall|r: host::Reply| gives_up(#[trigger] (p->Call_then)(r), floors()) by {
            lemma_survey(
                libs,
                dc,
                i + 1,
                out.push(library::library_row(i, libs[i], r)),
            );
        }
    }
}

proof fn lemma_sections(
    lib: json::Tree,
    floor: json::Tree,
    dc: u8,
    sections: Seq<json::Tree>,
    i: int,
    out: Seq<json::Tree>,
)
    ensures
        gives_up(library::sections_plan(lib, floor, dc, sections, i, out), None),
    decreases sections.len() - i,
{
    if 0 <= i < sections.len() {
        let p = library::sections_plan(lib, floor, dc, sections, i, out);
        assert forall|r: host::Reply| gives_up(#[trigger] (p->Call_then)(r), None) by {
            if let Ok(v) = r {
                lemma_sections(
                    lib,
                    floor,
                    dc,
                    sections,
                    i + 1,
                    out.push(library::section_row(i, sections[i], json::elements(v))),
                );
            }
        }
    }
}

proof fn lemma_kinds(
    kinds: Seq<json::Tree>,
    chosen: Seq<int>,
    day: Seq<char>,
    i: int,
    out: Seq<json::Tree>,
)
    ensures
        gives_up(rooms::kinds_plan(kinds, chosen, day, i, out), rooms_of_kind()),
    decreases chosen.len() - i,
{
    if 0 <= i < chosen.len() {
        let p = rooms::kinds_plan(kinds, chosen, day, i, out);
        let k = kinds[chosen[i]];
        let fetch = if i > 0 {
            *p->Pause_next
        } else {
            p
        };
        assert forall|r: host::Reply| gives_up(#[trigger] (fetch->Call_then)(r), rooms_of_kind()) by {
            match r {
                Ok(v) => {
                    lemma_kinds(
                        kinds,
                        chosen,
                        day,
                        i + 1,
                        out.push(rooms::rooms_row(chosen[i], k, day, v)),
                    );
                },
                Err(_) => {
                    let again = *(fetch->Call_then)(r)->Pause_next;
                    assert forall|r: host::Reply| gives_up(
                        #[trigger] (again->Call_then)(r),
                        rooms_of_kind(),
                    ) by {
                        if let Ok(v) = r {
                            lemma_kinds(
                                kinds,
                                chosen,
                                day,
                                i + 1,
                                out.push(rooms::rooms_row(chosen[i], k, day, v)),
                                    );
                        }
                    }
                    assert(gives_up(again, rooms_of_kind()));
                    assert(gives_up((fetch->Call_then)(r), rooms_of_kind()));
                },
            }
        }
        assert(gives_up(fetch, rooms_of_kind()));
    }
}

proof fn lemma_members(
    x: rooms::RoomV,
    from: Seq<char>,
    to: Seq<char>,
    members: Seq<json::Tree>,
    i: int,
    accounts: Seq<json::Tree>,
)
    ensures
        gives_up(rooms::members_plan(x, from, to, members, i, accounts), None),
    decreases members.len() - i,
{
    let p = rooms::members_plan(x, from, to, members, i, accounts);
    if 0 <= i < members.len() {
        let word = rooms::member_word(members[i]);
        if word.len() == 0 {
            lemma_members(x, from, to, members, i + 1, accounts);
        } else {
            assert forall|r: host::Reply| gives_up(#[trigger] (p->Call_then)(r), None) by {
                if let Ok(v) = r {
                    if let Some(hit) = rooms::best_hit(json::elements(v), word) {
                        if let Some(n) = rooms::account(hit) {
                            lemma_members(
                                x,
                                from,
                                to,
                                members,
                                i + 1,
                                accounts.push(json::int_tree(n as int)),
                            );
                        }
                    }
                }
            }
        }
    } else {
        reveal_with_fuel(gives_up, 3);
    }
}

proof fn lemma_lookups(today: Date, name: Seq<char>, args: json::Tree)
    ensures
        !defs::writes(name) ==> gives_up(tools::lookup_plan(today, name, args), spared(name)),
{
    assert forall|libs: Seq<json::Tree>, dc: u8, i: int, out: Seq<json::Tree>|
        gives_up(#[trigger] library::survey_plan(libs, dc, i, out), floors()) by {
        lemma_survey(libs, dc, i, out);
    }
    assert forall|
        lib: json::Tree,
        floor: json::Tree,
        dc: u8,
        sections: Seq<json::Tree>,
        i: int,
        out: Seq<json::Tree>,
    |
        gives_up(#[trigger] library::sections_plan(lib, floor, dc, sections, i, out), None) by {
        lemma_sections(lib, floor, dc, sections, i, out);
    }
    assert forall|
        kinds: Seq<json::Tree>,
        chosen: Seq<int>,
        day: Seq<char>,
        i: int,
        out: Seq<json::Tree>,
    |
        gives_up(#[trigger] rooms::kinds_plan(kinds, chosen, day, i, out), rooms_of_kind()) by {
        lemma_kinds(kinds, chosen, day, i, out);
    }
    assert(gives_up(campus::profile_plan(), None)) by {
        reveal_with_fuel(gives_up, 5);
    }
    assert(gives_up(campus::schedule_plan(today, args), None)) by {
        reveal_with_fuel(gives_up, 3);
    }
    assert(gives_up(campus::lookup_plan("info"@, "exams"@), None)) by {
        reveal_with_fuel(gives_up, 3);
    }
    assert(gives_up(campus::lookup_plan("info"@, "deadlines"@), None)) by {
        reveal_with_fuel(gives_up, 3);
    }
    assert(gives_up(campus::lookup_plan("info"@, "report"@), None)) by {
        reveal_with_fuel(gives_up, 3);
    }
    assert(gives_up(campus::lookup_plan("info"@, "schoolCalendar"@), None)) by {
        reveal_with_fuel(gives_up, 3);
    }
    assert(gives_up(campus::balance_plan(), None)) by {
        reveal_with_fuel(gives_up, 3);
    }
    assert(gives_up(campus::transactions_plan(today, args), None)) by {
        reveal_with_fuel(gives_up, 4);
    }
    assert(gives_up(campus::payments_plan(), None)) by {
        reveal_with_fuel(gives_up, 3);
    }
    assert(gives_up(campus::network_plan(), None)) by {
        reveal_with_fuel(gives_up, 4);
    }
    assert(gives_up(campus::news_plan(args), None)) by {
        reveal_with_fuel(gives_up, 3);
    }
    assert(gives_up(campus::subscribed_plan(args), None)) by {
        reveal_with_fuel(gives_up, 3);
    }
    assert(gives_up(campus::article_plan(args), None)) by {
        reveal_with_fuel(gives_up, 3);
    }
    assert(gives_up(classrooms::classrooms_plan(args), None)) by {
        reveal_with_fuel(gives_up, 4);
    }
    assert(gives_up(library::library_plan(today, args), floors())) by {
        reveal_with_fuel(gives_up, 2);
    }
    assert(gives_up(library::seats_plan(today, args), None)) by {
        reveal_with_fuel(gives_up, 4);
    }
    assert(gives_up(campus::lookup_plan("library"@, "records"@), None)) by {
        reveal_with_fuel(gives_up, 3);
    }
    assert(gives_up(rooms::librooms_plan(today, args), rooms_of_kind())) by {
        reveal_with_fuel(gives_up, 3);
    }
    assert(gives_up(campus::lookup_plan("libroom"@, "records"@), None)) by {
        reveal_with_fuel(gives_up, 3);
    }
    assert(gives_up(campus::navigate_plan(args), None)) by {
        reveal_with_fuel(gives_up, 3);
    }
    assert(gives_up(campus::notify_plan(args), None)) by {
        reveal_with_fuel(gives_up, 3);
    }
    names::lemma_apart();
}

proof fn lemma_summaries(today: Date, name: Seq<char>, args: json::Tree)
    requires
        defs::writes(name),
    ensures
        gives_up(tools::summary_plan(today, name, args), spared(name)),
{
    names::lemma_apart();
    if name == "book_library_seat"@ {
        assert(gives_up(
            library::seat_plan(today, args, library::confirm_seat(today, args)),
            None,
        )) by {
            reveal_with_fuel(gives_up, 5);
        }
    } else if name == "cancel_library_booking"@ {
        reveal_with_fuel(gives_up, 3);
    } else if name == "book_libroom"@ {
        assert(gives_up(rooms::libroom_plan(today, args, rooms::confirm_room(args)), None)) by {
            reveal_with_fuel(gives_up, 4);
        }
    } else {
        reveal_with_fuel(gives_up, 3);
    }
}

proof fn lemma_writes(today: Date, name: Seq<char>, args: json::Tree)
    requires
        defs::writes(name),
    ensures
        gives_up(tools::write_plan(today, name, args), spared(name)),
{
    assert forall|
        x: rooms::RoomV,
        from: Seq<char>,
        to: Seq<char>,
        members: Seq<json::Tree>,
        i: int,
        accounts: Seq<json::Tree>,
    |
        gives_up(#[trigger] rooms::members_plan(x, from, to, members, i, accounts), None) by {
        lemma_members(x, from, to, members, i, accounts);
    }
    assert(gives_up(
        library::seat_plan(today, args, library::book_seat(today, args)),
        None,
    )) by {
        reveal_with_fuel(gives_up, 6);
    }
    assert(gives_up(library::cancel_plan(args), cancelling())) by {
        reveal_with_fuel(gives_up, 4);
    }
    assert(gives_up(rooms::libroom_plan(today, args, rooms::book_room(args)), None)) by {
        reveal_with_fuel(gives_up, 4);
    }
    assert(gives_up(rooms::cancel_plan(args), None)) by {
        reveal_with_fuel(gives_up, 4);
    }
    names::lemma_apart();
}

proof fn lemma_on_the_way(p: plan::Plan, es: Seq<host::Exchange>, spared: Spared)
    requires
        gives_up(p, spared),
        plan::rest(p, es) is Some,
    ensures
        gives_up(plan::rest(p, es)->Some_0, spared),
    decreases es.len(),
{
    if es.len() > 0 {
        lemma_on_the_way(p, es.drop_last(), spared);
        let q = plan::rest(p, es.drop_last())->Some_0;
        match (q, es.last()) {
            (
                plan::Plan::Call { ns, method, args, then },
                host::Exchange::Call { ns: n, method: m, args: a, reply },
            ) => {
                assert(gives_up(then(plan::told(reply)), spared));
            },
            (
                plan::Plan::Total { amounts, sum },
                host::Exchange::Total { amounts: a, total },
            ) => {
                assert(gives_up(sum(total), spared));
            },
            _ => {},
        }
    }
}

/// Whatever a tool has asked before, a call to the host that fails ends it with that
/// error, and nothing more is asked. Three calls are spared: a library whose floors
/// cannot be had is told without them, the rooms of a kind are asked for once more, and
/// the refusal to cancel a seat is told in its own way.
pub proof fn law_a_failed_call_ends_the_tool(
    today: Date,
    name: Seq<char>,
    args: json::Tree,
    confirmed: bool,
    es: Seq<host::Exchange>,
    ns: Seq<char>,
    method: Seq<char>,
    given: json::Tree,
    e: Seq<char>,
)
    requires
        plan::rest(
            tools::tool_plan(today, name, args, confirmed),
            es.push(host::Exchange::Call { ns, method, args: given, reply: Err(e) }),
        ) is Some,
        spared(name) != Some((ns, method)),
    ensures
        places::ends(
            today,
            name,
            args,
            confirmed,
            es.push(host::Exchange::Call { ns, method, args: given, reply: Err(e) }),
            Err(places::told_error(e)),
        ),
{
    let p = tools::tool_plan(today, name, args, confirmed);
    let last = host::Exchange::Call { ns, method, args: given, reply: Err(e) };
    if defs::writes(name) {
        if confirmed {
            lemma_writes(today, name, args);
        } else {
            lemma_summaries(today, name, args);
        }
    } else {
        lemma_lookups(today, name, args);
    }
    assert(es.push(last).drop_last() =~= es);
    assert(es.push(last).last() == last);
    lemma_on_the_way(p, es, spared(name));
    let q = plan::rest(p, es)->Some_0;
    let x = places::told_error(e);
    assert(plan::told(Err(e)) == Err::<json::Tree, Seq<char>>(x));
    assert((q->Call_then)(Err(x)) == plan::Plan::Done(Err(x)));
}

} // verus!
