//! The campus tools: each is a call to the host, or a chain of them.
//!
//! Objects that the host hands out are named to the model by indices alone, so it can
//! not make one up. A tool that changes something outside is run in two steps: the
//! first gives a summary for the user to confirm, the second does it.

use crate::config;
use crate::date::Date;
use crate::host;
use crate::host::Host;
use crate::json;
use crate::json::Json;
use crate::text;
use vstd::prelude::*;

pub mod booked;
pub mod campus;
pub mod classrooms;
pub mod defs;
pub mod failed;
pub mod laws;
pub mod library;
pub mod offered;
pub mod places;
pub mod plan;
pub mod rooms;
pub mod told;

pub use defs::{all_tools, is_confirm, schema, ToolDef};

verus! {

/// What a tool comes to.
#[derive(Debug)]
pub enum ToolOut {
    /// A result for the model.
    Text(String),
    /// The user is to confirm this first.
    ConfirmNeeded { tool: String, args: Json, summary: String },
}

impl View for ToolOut {
    type V = plan::OutV;

    open spec fn view(&self) -> plan::OutV {
        match self {
            ToolOut::Text(s) => plan::OutV::Text(s@),
            ToolOut::ConfirmNeeded { tool, args, summary } => plan::OutV::Confirm {
                tool: tool@,
                args: args@,
                summary: summary@,
            },
        }
    }
}

pub open spec fn outcome(r: Result<ToolOut, String>) -> plan::Outcome {
    match r {
        Ok(o) => Ok(o@),
        Err(e) => Err(e@),
    }
}

/// What is done for the summary of a tool that the user has to confirm.
pub open spec fn summary_plan(today: Date, name: Seq<char>, args: json::Tree) -> plan::Plan {
    if name == "book_library_seat"@ {
        library::seat_plan(today, args, library::confirm_seat(today, args))
    } else if name == "cancel_library_booking"@ {
        library::confirm_cancel_plan(args)
    } else if name == "book_libroom"@ {
        rooms::libroom_plan(today, args, rooms::confirm_room(args))
    } else {
        rooms::confirm_cancel_plan(args)
    }
}

/// What a tool that needs no confirmation does.
pub open spec fn lookup_plan(today: Date, name: Seq<char>, args: json::Tree) -> plan::Plan {
    if name == "query_profile"@ {
        campus::profile_plan()
    } else if name == "query_schedule"@ {
        campus::schedule_plan(today, args)
    } else if name == "query_exams"@ {
        campus::lookup_plan("info"@, "exams"@)
    } else if name == "query_deadlines"@ {
        campus::lookup_plan("info"@, "deadlines"@)
    } else if name == "query_grades"@ {
        campus::lookup_plan("info"@, "report"@)
    } else if name == "query_calendar"@ {
        campus::lookup_plan("info"@, "schoolCalendar"@)
    } else if name == "query_card_balance"@ {
        campus::balance_plan()
    } else if name == "query_card_transactions"@ {
        campus::transactions_plan(today, args)
    } else if name == "query_dorm_ele_records"@ {
        campus::payments_plan()
    } else if name == "query_network"@ {
        campus::network_plan()
    } else if name == "query_news"@ {
        campus::news_plan(args)
    } else if name == "query_subscribed_news"@ {
        campus::subscribed_plan(args)
    } else if name == "read_news_article"@ {
        campus::article_plan(args)
    } else if name == "query_empty_classrooms"@ {
        classrooms::classrooms_plan(args)
    } else if name == "query_library"@ {
        library::library_plan(today, args)
    } else if name == "query_library_seats"@ {
        library::seats_plan(today, args)
    } else if name == "my_library_bookings"@ {
        campus::lookup_plan("library"@, "records"@)
    } else if name == "query_librooms"@ {
        rooms::librooms_plan(today, args)
    } else if name == "my_libroom_bookings"@ {
        campus::lookup_plan("libroom"@, "records"@)
    } else if name == "navigate"@ {
        campus::navigate_plan(args)
    } else if name == "notify"@ {
        campus::notify_plan(args)
    } else {
        plan::fail("未知工具："@ + name)
    }
}

/// What a tool that changes something outside does.
pub open spec fn write_plan(today: Date, name: Seq<char>, args: json::Tree) -> plan::Plan {
    if name == "book_library_seat"@ {
        library::seat_plan(today, args, library::book_seat(today, args))
    } else if name == "cancel_library_booking"@ {
        library::cancel_plan(args)
    } else if name == "book_libroom"@ {
        rooms::libroom_plan(today, args, rooms::book_room(args))
    } else {
        rooms::cancel_plan(args)
    }
}

/// What a tool does on a day. One that changes something outside does so only where
/// the user has confirmed.
pub open spec fn tool_plan(
    today: Date,
    name: Seq<char>,
    args: json::Tree,
    confirmed: bool,
) -> plan::Plan {
    if defs::writes(name) {
        if confirmed {
            write_plan(today, name, args)
        } else {
            summary_plan(today, name, args)
        }
    } else {
        lookup_plan(today, name, args)
    }
}

/// The exchanges between the two logs follow the plan to its end.
pub open spec fn followed(
    p: plan::Plan,
    before: Seq<host::Exchange>,
    after: Seq<host::Exchange>,
    end: plan::Outcome,
) -> bool {
    &&& before.is_prefix_of(after)
    &&& plan::rest(p, after.skip(before.len() as int)) == Some(plan::Plan::Done(end))
}

fn build_summary<H: Host>(
    h: &mut H,
    today: Date,
    name: &str,
    args: &Json,
    Ghost(t): Ghost<plan::Run>,
) -> (r: Result<String, String>)
    requires
        today.wf(),
        defs::writes(name@),
        plan::on_way(t, old(h).log()),
        t.at == summary_plan(today, name@, args@),
    ensures
        plan::on_way(plan::at(t, plan::summary_of(name@, args@, r)), final(h).log()),
{
    if text::same(name, "book_library_seat") {
        library::summarize_seat(h, today, args, Ghost(t))
    } else if text::same(name, "cancel_library_booking") {
        library::summarize_cancel(h, args, Ghost(t))
    } else if text::same(name, "book_libroom") {
        rooms::summarize_room(h, today, args, Ghost(t))
    } else {
        rooms::summarize_cancel(h, args, Ghost(t))
    }
}

fn write<H: Host>(
    h: &mut H,
    today: Date,
    name: &str,
    args: &Json,
    Ghost(t): Ghost<plan::Run>,
) -> (r: Result<Json, String>)
    requires
        today.wf(),
        defs::writes(name@),
        plan::on_way(t, old(h).log()),
        t.at == write_plan(today, name@, args@),
    ensures
        plan::on_way(plan::at(t, plan::end_of(r)), final(h).log()),
{
    if text::same(name, "book_library_seat") {
        library::book_library_seat(h, today, args, Ghost(t))
    } else if text::same(name, "cancel_library_booking") {
        library::cancel_library_booking(h, args, Ghost(t))
    } else if text::same(name, "book_libroom") {
        rooms::book_libroom(h, today, args, Ghost(t))
    } else {
        rooms::cancel_libroom_booking(h, args, Ghost(t))
    }
}

fn lookup<H: Host>(
    h: &mut H,
    today: Date,
    name: &str,
    args: &Json,
    Ghost(t): Ghost<plan::Run>,
) -> (r: Result<Json, String>)
    requires
        today.wf(),
        plan::on_way(t, old(h).log()),
        t.at == lookup_plan(today, name@, args@),
    ensures
        plan::on_way(plan::at(t, plan::end_of(r)), final(h).log()),
{
    if text::same(name, "query_profile") {
        campus::query_profile(h, Ghost(t))
    } else if text::same(name, "query_schedule") {
        campus::query_schedule(h, today, args, Ghost(t))
    } else if text::same(name, "query_exams") {
        campus::lookup(h, "info", "exams", Ghost(t))
    } else if text::same(name, "query_deadlines") {
        campus::lookup(h, "info", "deadlines", Ghost(t))
    } else if text::same(name, "query_grades") {
        campus::lookup(h, "info", "report", Ghost(t))
    } else if text::same(name, "query_calendar") {
        campus::lookup(h, "info", "schoolCalendar", Ghost(t))
    } else if text::same(name, "query_card_balance") {
        campus::query_card_balance(h, Ghost(t))
    } else if text::same(name, "query_card_transactions") {
        campus::query_card_transactions(h, today, args, Ghost(t))
    } else if text::same(name, "query_dorm_ele_records") {
        campus::query_dorm_ele_records(h, Ghost(t))
    } else if text::same(name, "query_network") {
        campus::query_network(h, Ghost(t))
    } else if text::same(name, "query_news") {
        campus::query_news(h, args, Ghost(t))
    } else if text::same(name, "query_subscribed_news") {
        campus::query_subscribed_news(h, args, Ghost(t))
    } else if text::same(name, "read_news_article") {
        campus::read_news_article(h, args, Ghost(t))
    } else if text::same(name, "query_empty_classrooms") {
        classrooms::query_empty_classrooms(h, args, Ghost(t))
    } else if text::same(name, "query_library") {
        library::query_library(h, today, args, Ghost(t))
    } else if text::same(name, "query_library_seats") {
        library::query_library_seats(h, today, args, Ghost(t))
    } else if text::same(name, "my_library_bookings") {
        campus::lookup(h, "library", "records", Ghost(t))
    } else if text::same(name, "query_librooms") {
        rooms::query_librooms(h, today, args, Ghost(t))
    } else if text::same(name, "my_libroom_bookings") {
        campus::lookup(h, "libroom", "records", Ghost(t))
    } else if text::same(name, "navigate") {
        campus::navigate(h, args, Ghost(t))
    } else if text::same(name, "notify") {
        campus::notify(h, args, Ghost(t))
    } else {
        Err(text::cat("未知工具：", name))
    }
}

/// Runs a tool on a day. Where the user has not confirmed a tool that changes
/// something outside, it comes to the summary that they are to confirm.
pub fn execute_on<H: Host>(
    h: &mut H,
    today: Date,
    name: &str,
    args: &Json,
    confirmed: bool,
) -> (r: Result<ToolOut, String>)
    requires
        today.wf(),
    ensures
        followed(
            tool_plan(today, name@, args@, confirmed),
            old(h).log(),
            final(h).log(),
            outcome(r),
        ),
{
    let ghost t = plan::begin(tool_plan(today, name@, args@, confirmed), h.log());
    proof {
        plan::lemma_begin(t.plan, h.log());
    }
    if is_confirm(name) && !confirmed {
        return match build_summary(h, today, name, args, Ghost(t)) {
            Ok(summary) => Ok(
                ToolOut::ConfirmNeeded { tool: name.to_owned(), args: args.clone(), summary },
            ),
            Err(e) => Err(e),
        };
    }
    let out = if is_confirm(name) {
        write(h, today, name, args, Ghost(t))
    } else {
        lookup(h, today, name, args, Ghost(t))
    };
    match out {
        Ok(v) => Ok(ToolOut::Text(json::print(&v))),
        Err(e) => Err(e),
    }
}

/// Runs a tool today.
pub fn execute<H: Host>(h: &mut H, name: &str, args: &Json, confirmed: bool) -> (r: Result<
    ToolOut,
    String,
>)
    ensures
        exists|t: Date|
            t.wf() && followed(
                #[trigger] tool_plan(t, name@, args@, confirmed),
                old(h).log(),
                final(h).log(),
                outcome(r),
            ),
{
    let today = config::today();
    execute_on(h, today, name, args, confirmed)
}

} // verus!
