//! What holds of JSON values.

use crate::json;
use vstd::prelude::*;

verus! {

/// What an object has under a name is what stands first under it; nothing where the name
/// does not stand in it.
pub proof fn law_a_field_is_the_first_of_its_name(
    fields: Seq<(Seq<char>, json::Tree)>,
    key: Seq<char>,
    k: int,
)
    requires
        0 <= k <= fields.len(),
        k < fields.len() ==> fields[k].0 == key,
        forall|i: int| 0 <= i < k ==> (#[trigger] fields[i]).0 != key,
    ensures
        k < fields.len() ==> json::field(json::Tree::Obj(fields), key) == Some(fields[k].1),
        k == fields.len() ==> json::field(json::Tree::Obj(fields), key) is None,
{
    lemma_from(fields, key, k, 0);
}

proof fn lemma_from(fields: Seq<(Seq<char>, json::Tree)>, key: Seq<char>, k: int, i: int)
    requires
        0 <= i <= k <= fields.len(),
        k < fields.len() ==> fields[k].0 == key,
        forall|i: int| 0 <= i < k ==> (#[trigger] fields[i]).0 != key,
    ensures
        json::field_from(fields, key, i) == if k < fields.len() {
            Some(fields[k].1)
        } else {
            None
        },
    decreases k - i,
{
    if i < k {
        assert(fields[i].0 != key);
        lemma_from(fields, key, k, i + 1);
    }
}

/// Only an object has fields, and only an array has elements: those, in order.
pub proof fn law_values_are_what_they_are(v: json::Tree, key: Seq<char>, items: Seq<json::Tree>, i: int)
    ensures
        !(v is Obj) ==> json::field(v, key) is None,
        json::elements(json::Tree::Arr(items)) == items,
        !(v is Arr) ==> json::elements(v).len() == 0 && json::element(v, i) is None,
        0 <= i < items.len() ==> json::element(json::Tree::Arr(items), i) == Some(items[i]),
        i >= items.len() ==> json::element(json::Tree::Arr(items), i) is None,
{
}

/// A text, a whole number, a flag or any value under a name is that; what is not there or
/// is of another sort is an empty text, zero, or null.
pub proof fn law_lookups_have_a_default(v: json::Tree, key: Seq<char>, s: Seq<char>, n: u64, x: json::Tree)
    ensures
        json::field(v, key) == Some(json::Tree::Str(s)) ==> json::text_at(v, key) == s,
        json::field(v, key) == Some(x) && !(x is Str) ==> json::text_at(v, key).len() == 0,
        json::field(v, key) == Some(json::Tree::Pos(n)) && n <= i64::MAX ==> json::int_at(v, key)
            == n,
        json::field(v, key) is None ==> json::text_at(v, key).len() == 0 && json::int_at(v, key)
            == 0 && json::value_at(v, key) == json::Tree::Null,
        json::field(v, key) == Some(x) ==> json::value_at(v, key) == x,
        json::int_tree(n as int) == json::Tree::Pos(n),
{
}

} // verus!
