//! What the tools ask the model for.

use crate::json;
use crate::json::names;
use crate::tools::defs;
use vstd::prelude::*;

verus! {

/// The tool is described to the model by its name and by what it takes.
pub proof fn law_a_tool_is_described_by_its_name(i: int)
    requires
        0 <= i < defs::tools().len(),
    ensures
        defs::functions(defs::tools()).len() == defs::tools().len(),
        ({
            let v = defs::functions(defs::tools())[i];
            &&& json::field(v, "type"@) == Some(json::Tree::Str("function"@))
            &&& json::field(v, "function"@) matches Some(f) && json::field(f, "name"@) == Some(
                json::Tree::Str(defs::tools()[i].name),
            ) && json::field(f, "description"@) == Some(json::Tree::Str(defs::tools()[i].desc))
                && json::field(f, "parameters"@) == Some(defs::tools()[i].params)
        }),
{
    names::lemma_apart();
    reveal_with_fuel(json::field_from, 4);
}

/// The parameters are an object that has these arguments, and needs those of them.
pub open spec fn takes(
    d: defs::DefV,
    arguments: Seq<(Seq<char>, Seq<char>)>,
    needed: Seq<Seq<char>>,
) -> bool {
    &&& json::field(d.params, "type"@) == Some(json::Tree::Str("object"@))
    &&& json::field(d.params, "properties"@) matches Some(json::Tree::Obj(props)) && props.len()
        == arguments.len() && forall|k: int|
        0 <= k < props.len() ==> (#[trigger] props[k]).0 == arguments[k].0 && json::field(
            props[k].1,
            "type"@,
        ) == Some(json::Tree::Str(arguments[k].1))
    &&& needed.len() == 0 ==> json::field(d.params, "required"@) is None
    &&& needed.len() > 0 ==> json::field(d.params, "required"@) == Some(
        json::Tree::Arr(needed.map_values(|n: Seq<char>| json::Tree::Str(n))),
    )
}

/// The argument is a number of at least `n`.
pub open spec fn is_at_least(d: defs::DefV, key: Seq<char>, n: u64) -> bool {
    &&& json::field(d.params, "properties"@) matches Some(props)
    &&& json::field(props, key) matches Some(a)
    &&& json::field(a, "minimum"@) == Some(json::Tree::Pos(n))
}

pub open spec fn nothing() -> Seq<(Seq<char>, Seq<char>)> {
    Seq::empty()
}

pub open spec fn none_needed() -> Seq<Seq<char>> {
    Seq::empty()
}

/// The tools for one's studies, with what they take.
pub proof fn law_study_tools_take_their_arguments()
    ensures
        defs::tools().len() == 25,
        defs::tools()[0].name == "query_profile"@ && defs::tools()[0].confirm == false,
        takes(defs::tools()[0], nothing(), none_needed()),
        defs::tools()[1].name == "query_schedule"@ && defs::tools()[1].confirm == false,
        takes(
            defs::tools()[1],
            nothing().push(("start"@, "string"@)).push(("end"@, "string"@)),
            none_needed(),
        ),
        defs::tools()[2].name == "query_exams"@ && defs::tools()[2].confirm == false,
        takes(defs::tools()[2], nothing(), none_needed()),
        defs::tools()[3].name == "query_deadlines"@ && defs::tools()[3].confirm == false,
        takes(defs::tools()[3], nothing(), none_needed()),
        defs::tools()[4].name == "query_grades"@ && defs::tools()[4].confirm == false,
        takes(defs::tools()[4], nothing(), none_needed()),
        defs::tools()[5].name == "query_calendar"@ && defs::tools()[5].confirm == false,
        takes(defs::tools()[5], nothing(), none_needed()),
{
    names::lemma_apart();
    reveal_with_fuel(json::field_from, 6);
}

/// The tools for life on the campus, with what they take.
pub proof fn law_life_tools_take_their_arguments()
    ensures
        defs::tools().len() == 25,
        defs::tools()[6].name == "query_card_balance"@ && defs::tools()[6].confirm == false,
        takes(defs::tools()[6], nothing(), none_needed()),
        defs::tools()[7].name == "query_card_transactions"@ && defs::tools()[7].confirm == false,
        takes(
            defs::tools()[7],
            nothing().push(("start"@, "string"@)).push(("end"@, "string"@)),
            none_needed(),
        ),
        defs::tools()[8].name == "query_dorm_ele_records"@ && defs::tools()[8].confirm == false,
        takes(defs::tools()[8], nothing(), none_needed()),
        defs::tools()[9].name == "query_network"@ && defs::tools()[9].confirm == false,
        takes(defs::tools()[9], nothing(), none_needed()),
        defs::tools()[10].name == "query_news"@ && defs::tools()[10].confirm == false,
        takes(
            defs::tools()[10],
            nothing().push(("keyword"@, "string"@)).push(("page"@, "integer"@)),
            none_needed(),
        ),
        is_at_least(defs::tools()[10], "page"@, 1),
        defs::tools()[11].name == "query_subscribed_news"@ && defs::tools()[11].confirm == false,
        takes(defs::tools()[11], nothing().push(("page"@, "integer"@)), none_needed()),
        is_at_least(defs::tools()[11], "page"@, 1),
        defs::tools()[12].name == "read_news_article"@ && defs::tools()[12].confirm == false,
        takes(
            defs::tools()[12],
            nothing().push(("news_id"@, "string"@)),
            none_needed().push("news_id"@),
        ),
        defs::tools()[13].name == "query_empty_classrooms"@ && defs::tools()[13].confirm == false,
        takes(
            defs::tools()[13],
            nothing().push(("building"@, "string"@)).push(("week"@, "integer"@)),
            none_needed().push("building"@),
        ),
{
    names::lemma_apart();
    reveal_with_fuel(json::field_from, 6);
    assert(none_needed().push("news_id"@).map_values(
        |n: Seq<char>| json::Tree::Str(n),
    ) =~= json::no_items().push(json::Tree::Str("news_id"@)));
    assert(none_needed().push("building"@).map_values(
        |n: Seq<char>| json::Tree::Str(n),
    ) =~= json::no_items().push(json::Tree::Str("building"@)));
}

/// The tools for the library, with what they take; those that change something are to be
/// confirmed.
pub proof fn law_library_tools_take_their_arguments()
    ensures
        defs::tools().len() == 25,
        defs::tools()[14].name == "query_library"@ && defs::tools()[14].confirm == false,
        takes(defs::tools()[14], nothing().push(("date"@, "string"@)), none_needed()),
        defs::tools()[15].name == "query_library_seats"@ && defs::tools()[15].confirm == false,
        takes(
            defs::tools()[15],
            nothing().push(("libIdx"@, "integer"@)).push(("floorIdx"@, "integer"@))
                .push(("date"@, "string"@)),
            none_needed().push("libIdx"@).push("floorIdx"@),
        ),
        is_at_least(defs::tools()[15], "libIdx"@, 0),
        is_at_least(defs::tools()[15], "floorIdx"@, 0),
        defs::tools()[16].name == "book_library_seat"@ && defs::tools()[16].confirm == true,
        takes(
            defs::tools()[16],
            nothing().push(("libIdx"@, "integer"@)).push(("floorIdx"@, "integer"@))
                .push(("sectionIdx"@, "integer"@)).push(("seatIdx"@, "integer"@))
                .push(("date"@, "string"@)),
            none_needed().push("libIdx"@).push("floorIdx"@).push("sectionIdx"@)
                .push("seatIdx"@),
        ),
        defs::tools()[17].name == "my_library_bookings"@ && defs::tools()[17].confirm == false,
        takes(defs::tools()[17], nothing(), none_needed()),
        defs::tools()[18].name == "cancel_library_booking"@ && defs::tools()[18].confirm == true,
        takes(
            defs::tools()[18],
            nothing().push(("bookingIdx"@, "integer"@)),
            none_needed().push("bookingIdx"@),
        ),
        is_at_least(defs::tools()[18], "bookingIdx"@, 0),
        defs::tools()[19].name == "query_librooms"@ && defs::tools()[19].confirm == false,
        takes(
            defs::tools()[19],
            nothing().push(("date"@, "string"@)).push(("kind"@, "string"@)),
            none_needed().push("date"@),
        ),
        defs::tools()[20].name == "book_libroom"@ && defs::tools()[20].confirm == true,
        takes(
            defs::tools()[20],
            nothing().push(("date"@, "string"@)).push(("roomIdx"@, "integer"@))
                .push(("start"@, "string"@)).push(("end"@, "string"@))
                .push(("members"@, "array"@)),
            none_needed().push("date"@).push("roomIdx"@).push("start"@).push("end"@),
        ),
        is_at_least(defs::tools()[20], "roomIdx"@, 0),
        defs::tools()[21].name == "my_libroom_bookings"@ && defs::tools()[21].confirm == false,
        takes(defs::tools()[21], nothing(), none_needed()),
        defs::tools()[22].name == "cancel_libroom_booking"@ && defs::tools()[22].confirm == true,
        takes(
            defs::tools()[22],
            nothing().push(("recordIdx"@, "integer"@)),
            none_needed().push("recordIdx"@),
        ),
        is_at_least(defs::tools()[22], "recordIdx"@, 0),
{
    names::lemma_apart();
    reveal_with_fuel(json::field_from, 6);
    assert(none_needed().push("libIdx"@).push("floorIdx"@).map_values(
        |n: Seq<char>| json::Tree::Str(n),
    ) =~= json::no_items().push(json::Tree::Str("libIdx"@)).push(json::Tree::Str("floorIdx"@)));
    assert(none_needed().push("libIdx"@).push("floorIdx"@).push("sectionIdx"@)
        .push("seatIdx"@).map_values(
        |n: Seq<char>| json::Tree::Str(n),
    ) =~= json::no_items().push(json::Tree::Str("libIdx"@)).push(json::Tree::Str("floorIdx"@))
        .push(json::Tree::Str("sectionIdx"@)).push(json::Tree::Str("seatIdx"@)));
    assert(none_needed().push("bookingIdx"@).map_values(
        |n: Seq<char>| json::Tree::Str(n),
    ) =~= json::no_items().push(json::Tree::Str("bookingIdx"@)));
    assert(none_needed().push("date"@).map_values(
        |n: Seq<char>| json::Tree::Str(n),
    ) =~= json::no_items().push(json::Tree::Str("date"@)));
    assert(none_needed().push("date"@).push("roomIdx"@).push("start"@).push("end"@).map_values(
        |n: Seq<char>| json::Tree::Str(n),
    ) =~= json::no_items().push(json::Tree::Str("date"@)).push(json::Tree::Str("roomIdx"@))
        .push(json::Tree::Str("start"@)).push(json::Tree::Str("end"@)));
    assert(none_needed().push("recordIdx"@).map_values(
        |n: Seq<char>| json::Tree::Str(n),
    ) =~= json::no_items().push(json::Tree::Str("recordIdx"@)));
}

/// The tools for the app itself, with what they take.
pub proof fn law_app_tools_take_their_arguments()
    ensures
        defs::tools().len() == 25,
        defs::tools()[23].name == "navigate"@ && defs::tools()[23].confirm == false,
        takes(
            defs::tools()[23],
            nothing().push(("page"@, "string"@)).push(("params"@, "object"@)),
            none_needed().push("page"@),
        ),
        defs::tools()[24].name == "notify"@ && defs::tools()[24].confirm == false,
        takes(defs::tools()[24], nothing().push(("text"@, "string"@)), none_needed().push("text"@)),
{
    names::lemma_apart();
    reveal_with_fuel(json::field_from, 6);
    assert(none_needed().push("page"@).map_values(
        |n: Seq<char>| json::Tree::Str(n),
    ) =~= json::no_items().push(json::Tree::Str("page"@)));
    assert(none_needed().push("text"@).map_values(
        |n: Seq<char>| json::Tree::Str(n),
    ) =~= json::no_items().push(json::Tree::Str("text"@)));
}

} // verus!
