//! Token usage: what each call of the model took, added up by conversation and over
//! all of them. Prices are decimal fractions and are worked out by the caller.

use crate::json;
use crate::json::Json;
use vstd::prelude::*;

verus! {

#[derive(Clone, Copy, Debug, PartialEq, Eq, Structural)]
pub struct Usage {
    pub prompt: u64,
    pub completion: u64,
    pub calls: u64,
}

impl Default for Usage {
    fn default() -> (r: Self)
        ensures
            r == zero(),
    {
        Usage { prompt: 0, completion: 0, calls: 0 }
    }
}

pub open spec fn zero() -> Usage {
    Usage { prompt: 0, completion: 0, calls: 0 }
}

/// The sums of two usages can be represented.
pub open spec fn fit(a: Usage, b: Usage) -> bool {
    a.prompt + b.prompt <= u64::MAX && a.completion + b.completion <= u64::MAX && a.calls + b.calls
        <= u64::MAX
}

pub open spec fn sum(a: Usage, b: Usage) -> Usage {
    Usage {
        prompt: (a.prompt + b.prompt) as u64,
        completion: (a.completion + b.completion) as u64,
        calls: (a.calls + b.calls) as u64,
    }
}

impl Usage {
    /// Adds another usage to this one.
    pub fn add(&mut self, other: &Usage)
        requires
            fit(*old(self), *other),
        ensures
            *final(self) == sum(*old(self), *other),
    {
        self.prompt += other.prompt;
        self.completion += other.completion;
        self.calls += other.calls;
    }

    /// The other usage can be added to this one.
    pub fn takes(&self, other: &Usage) -> (r: bool)
        ensures
            r == fit(*self, *other),
    {
        other.prompt <= u64::MAX - self.prompt && other.completion <= u64::MAX - self.completion
            && other.calls <= u64::MAX - self.calls
    }
}

/// The usage that a reply of the model reports.
#[derive(Clone, Copy, Debug, PartialEq, Eq, Structural)]
pub struct ApiUsage {
    pub prompt_tokens: u64,
    pub completion_tokens: u64,
}

impl Default for ApiUsage {
    fn default() -> (r: Self)
        ensures
            r == (ApiUsage { prompt_tokens: 0, completion_tokens: 0 }),
    {
        ApiUsage { prompt_tokens: 0, completion_tokens: 0 }
    }
}

/// A count that may be left out: zero where it is, absent where it is no count.
pub open spec fn count_or_zero(v: Option<json::Tree>) -> Option<u64> {
    match v {
        None => Some(0),
        Some(x) => json::u64_of(Some(x)),
    }
}

/// The usage that a value reports: an object with the two counts by name, or an
/// array with them in order; either may leave counts out.
pub open spec fn reported(v: json::Tree) -> Option<ApiUsage> {
    let (p, c) = match v {
        json::Tree::Obj(_) => (
            count_or_zero(json::field(v, "prompt_tokens"@)),
            count_or_zero(json::field(v, "completion_tokens"@)),
        ),
        json::Tree::Arr(items) => if items.len() <= 2 {
            (count_or_zero(json::element(v, 0)), count_or_zero(json::element(v, 1)))
        } else {
            (None, None)
        },
        _ => (None, None),
    };
    match (p, c) {
        (Some(p), Some(c)) => Some(ApiUsage { prompt_tokens: p, completion_tokens: c }),
        _ => None,
    }
}

fn read_count(v: Option<&Json>) -> (r: Option<u64>)
    ensures
        r == count_or_zero(match v {
            Some(x) => Some(x@),
            None => None,
        }),
{
    match v {
        None => Some(0),
        Some(x) => x.as_u64(),
    }
}

impl ApiUsage {
    /// Reads the usage that a value reports.
    pub fn from_json(v: &Json) -> (r: Option<ApiUsage>)
        ensures
            r == reported(v@),
    {
        let (p, c): (Option<u64>, Option<u64>) = if v.is_object() {
            (read_count(v.get("prompt_tokens")), read_count(v.get("completion_tokens")))
        } else if v.is_array() {
            match v.at(2) {
                Some(_) => (None, None),
                None => (read_count(v.at(0)), read_count(v.at(1))),
            }
        } else {
            (None, None)
        };
        match (p, c) {
            (Some(p), Some(c)) => Some(ApiUsage { prompt_tokens: p, completion_tokens: c }),
            _ => None,
        }
    }
}

/// Usages add up in any order.
pub proof fn law_usages_add_in_any_order(a: Usage, b: Usage, c: Usage)
    requires
        fit(a, b),
        fit(sum(a, b), c),
    ensures
        fit(b, c),
        fit(a, sum(b, c)),
        sum(sum(a, b), c) == sum(a, sum(b, c)),
        sum(a, b) == sum(b, a),
{
}

/// Usages add up figure by figure.
pub proof fn law_usages_add_figure_by_figure(a: Usage, b: Usage)
    requires
        fit(a, b),
    ensures
        sum(a, b).prompt == a.prompt + b.prompt,
        sum(a, b).completion == a.completion + b.completion,
        sum(a, b).calls == a.calls + b.calls,
        sum(a, zero()) == a,
{
}

/// What a reply reports is the two counts under their names; a count that is left out is
/// zero, and one that is no count makes the report none.
pub proof fn law_reports_are_read_by_name(
    fields: Seq<(Seq<char>, json::Tree)>,
    p: Option<json::Tree>,
    c: Option<json::Tree>,
)
    requires
        json::field(json::Tree::Obj(fields), "prompt_tokens"@) == p,
        json::field(json::Tree::Obj(fields), "completion_tokens"@) == c,
    ensures
        ({
            let r = reported(json::Tree::Obj(fields));
            let good_p = p is None || p->Some_0 is Pos;
            let good_c = c is None || c->Some_0 is Pos;
            &&& r is Some <==> good_p && good_c
            &&& p matches Some(json::Tree::Pos(n)) ==> (r matches Some(u) ==> u.prompt_tokens == n)
            &&& p is None ==> (r matches Some(u) ==> u.prompt_tokens == 0)
            &&& c matches Some(json::Tree::Pos(n)) ==> (r matches Some(u) ==> u.completion_tokens
                == n)
            &&& c is None ==> (r matches Some(u) ==> u.completion_tokens == 0)
        }),
{
}

/// A report may also be a list: of the count for the prompt, then the one for the
/// completion.
pub proof fn law_reports_are_read_in_order(p: u64, c: u64)
    ensures
        reported(
            json::Tree::Arr(Seq::empty().push(json::Tree::Pos(p)).push(json::Tree::Pos(c))),
        ) == Some(ApiUsage { prompt_tokens: p, completion_tokens: c }),
{
}

} // verus!
