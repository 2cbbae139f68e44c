//! What holds of the conversations that are kept, and of the trimming of a history.

use crate::config;
use crate::json;
use crate::session;
use crate::session::{MsgV, SessionV, Stamp, StoreV};
use crate::text;
use vstd::prelude::*;

verus! {

/// Each message counts with its content and its tool calls, and four more.
pub proof fn law_each_message_counts(msgs: Seq<MsgV>, m: MsgV)
    ensures
        session::history(Seq::empty()) == 0,
        session::history(msgs.push(m)) == session::history(msgs) + (match m.content {
            Some(c) => config::tokens(c),
            None => 0,
        }) + (match m.tool_calls {
            Some(c) => config::tokens(json::json_text(c)),
            None => 0,
        }) + 4,
{
    assert(msgs.push(m).drop_last() =~= msgs);
}

/// The history with its first `p` messages cut short where they are tool results.
pub open spec fn cut_before(msgs: Seq<MsgV>, p: int) -> Seq<MsgV> {
    Seq::new(
        msgs.len(),
        |i: int|
            if i < p && msgs[i].role == "tool"@ {
                session::shortened(msgs[i])
            } else {
                msgs[i]
            },
    )
}

proof fn lemma_cut(msgs: Seq<MsgV>, budget: nat, i: int) -> (p: int)
    requires
        0 <= i <= msgs.len(),
    ensures
        i <= p <= msgs.len(),
        session::shortened_from(cut_before(msgs, i), budget, i) == cut_before(msgs, p),
        p > i ==> session::history(cut_before(msgs, p - 1)) > budget,
    decreases msgs.len() - i,
{
    let now = cut_before(msgs, i);
    if session::history(now) <= budget || i >= msgs.len() {
        i
    } else {
        if msgs[i].role == "tool"@ {
            assert(now.update(i, session::shortened(now[i])) =~= cut_before(msgs, i + 1));
        } else {
            assert(now =~= cut_before(msgs, i + 1));
        }
        lemma_cut(msgs, budget, i + 1)
    }
}

proof fn lemma_needed(msgs: Seq<MsgV>, k: int, budget: nat) -> (r: (int, int))
    requires
        session::paired(msgs, k),
    ensures
        k <= r.1 <= r.0 <= msgs.len(),
        session::without_oldest(msgs, budget) == msgs.take(k) + msgs.skip(r.0),
        r.0 > k ==> r.1 < r.0 && session::history(msgs.take(k) + msgs.skip(r.1)) > budget && (
        msgs.take(k) + msgs.skip(r.1)).len() > 3 && forall|i: int|
            r.1 < i < r.0 ==> (#[trigger] msgs[i]).role == "tool"@,
    decreases msgs.len(),
{
    assert(msgs.take(k) + msgs.skip(k) =~= msgs);
    if k == msgs.len() {
        session::lemma_all_system(msgs, 0);
        (k, k)
    } else if session::history(msgs) <= budget || msgs.len() <= 3 {
        (k, k)
    } else {
        assert(session::in_place(msgs, k, k));
        session::lemma_first_spoken(msgs, k, 0);
        let m = session::lemma_drop_turn(msgs, k);
        let next = msgs.take(k) + msgs.skip(m);
        session::lemma_paired_suffix(msgs, k, m);
        let (n, o) = lemma_needed(next, k, budget);
        assert(next.take(k) =~= msgs.take(k));
        assert(next.skip(n) =~= msgs.skip(n - k + m));
        if n > k {
            assert(next.skip(o) =~= msgs.skip(o - k + m));
            assert forall|i: int| o - k + m < i < n - k + m implies (#[trigger] msgs[i]).role
                == "tool"@ by {
                assert(next[i - m + k] == msgs[i]);
            }
            (n - k + m, o - k + m)
        } else {
            (m, k)
        }
    }
}

/// Trimming goes no further than it has to. Tool results are cut short from the oldest
/// on, and the last of them only because the history was still too long before. Then
/// turns go from the oldest on, each with its tool results, and the last of them only
/// because the history was still too long with it.
pub proof fn law_trimming_goes_no_further_than_needed(msgs: Seq<MsgV>, k: int, budget: nat) -> (r: (
    int,
    int,
    int,
))
    requires
        session::paired(msgs, k),
        session::history(msgs) > budget,
        msgs.len() > 3,
    ensures
        0 <= r.0 <= msgs.len(),
        k <= r.2 <= r.1 <= msgs.len(),
        session::trimmed_history(msgs, budget) == msgs.take(k) + cut_before(msgs, r.0).skip(r.1),
        r.0 > 0 ==> session::history(cut_before(msgs, r.0 - 1)) > budget,
        r.1 > k ==> r.2 < r.1 && session::history(
            msgs.take(k) + cut_before(msgs, r.0).skip(r.2),
        ) > budget && forall|i: int| r.2 < i < r.1 ==> (#[trigger] msgs[i]).role == "tool"@,
{
    assert(cut_before(msgs, 0) =~= msgs);
    let p = lemma_cut(msgs, budget, 0);
    let cut = cut_before(msgs, p);
    session::lemma_roles_differ();
    assert(session::same_but_shorter(msgs, cut));
    session::lemma_shortened_paired(msgs, cut, k);
    let (j, o) = lemma_needed(cut, k, budget);
    assert(cut.take(k) =~= msgs.take(k)) by {
        assert forall|i: int| 0 <= i < k implies cut[i] == msgs[i] by {
            assert(msgs[i].role == "system"@);
        }
    }
    assert forall|i: int| o < i < j implies (#[trigger] msgs[i]).role == "tool"@ by {
        assert(cut[i].role == "tool"@);
    }
    (p, j, o)
}

/// A new conversation is empty and has used nothing; it is called by the first
/// twenty-four characters of its title, and its name comes from the time and a number
/// that no other had.
pub proof fn law_a_new_conversation_is_empty(s: StoreV, title: Seq<char>, stamp: Stamp)
    requires
        s.seq < u64::MAX,
        session::distinct(s.sessions),
    ensures
        ({
            let t = session::opened(s, title, stamp);
            let new = t.sessions.last();
            &&& new.messages.len() == 0
            &&& new.trace.len() == 0
            &&& new.pending is None
            &&& new.usage.prompt == 0 && new.usage.completion == 0 && new.usage.calls == 0
            &&& new.title == if title.len() <= 24 {
                title
            } else {
                title.take(24)
            }
            &&& new.id == "s"@ + text::signed_decimal(stamp.millis as int) + text::decimal(
                (s.seq + 1) as nat,
            )
            &&& new.created_at == stamp.created
            &&& new.updated_at == stamp.updated
            &&& t.seq == s.seq + 1
            &&& t.totals == s.totals
            &&& t.totals_cost_usd == s.totals_cost_usd
        }),
{
    session::law_new_session_is_active(s, title, stamp);
}

/// The other conversations stay in order. Up to twenty-four are kept; past that the
/// oldest goes, but not the one that was active.
pub proof fn law_the_oldest_makes_room(s: StoreV, title: Seq<char>, stamp: Stamp, i: int)
    requires
        s.seq < u64::MAX,
        session::distinct(s.sessions),
        s.sessions.len() <= 24,
        s.sessions.len() == 24 ==> 0 <= i < 24 && s.sessions[i].id != s.active && forall|k: int|
            0 <= k < i ==> (#[trigger] s.sessions[k]).id == s.active,
        forall|k: int|
            0 <= k < s.sessions.len() ==> (#[trigger] s.sessions[k]).id != session::session_id(
                stamp.millis,
                s.seq + 1,
            ),
    ensures
        ({
            let t = session::opened(s, title, stamp);
            &&& s.sessions.len() < 24 ==> t.sessions.drop_last() == s.sessions
            &&& s.sessions.len() == 24 ==> t.sessions.drop_last() == s.sessions.remove(i)
        }),
{
    let new = session::fresh_session(title, stamp, s.seq + 1);
    let full = s.sessions.push(new);
    let t = session::opened(s, title, stamp);
    if s.sessions.len() == 24 {
        assert forall|k: int| 0 <= k < s.sessions.len() implies full[k] == s.sessions[k] by {
        }
        lemma_first_other(full, s.active, new.id, i, 0);
        assert(full.remove(i).drop_last() =~= s.sessions.remove(i));
    } else {
        assert(full.drop_last() =~= s.sessions);
    }
}

proof fn lemma_first_other(s: Seq<SessionV>, a: Seq<char>, b: Seq<char>, i: int, k: int)
    requires
        0 <= k <= i < s.len(),
        s[i].id != a && s[i].id != b,
        forall|j: int| 0 <= j < i ==> (#[trigger] s[j]).id == a,
    ensures
        session::other_from(s, a, b, k) == i,
    decreases i - k,
{
    if k < i {
        assert(s[k].id == a);
        lemma_first_other(s, a, b, i, k + 1);
    }
}

/// The conversations of another name.
pub open spec fn not_called(id: Seq<char>) -> spec_fn(SessionV) -> bool {
    |x: SessionV| x.id != id
}

proof fn lemma_kept_in_order(s: Seq<SessionV>, id: Seq<char>)
    ensures
        session::kept(s, id) == s.filter(not_called(id)),
    decreases s.len(),
{
    reveal(Seq::filter);
    if s.len() > 0 {
        let first = seq![s[0]];
        lemma_kept_in_order(s.skip(1), id);
        assert(first + s.skip(1) =~= s);
        Seq::filter_distributes_over_add(first, s.skip(1), not_called(id));
        assert(first.drop_last() =~= Seq::empty());
        assert(first.drop_last().filter(not_called(id)) =~= Seq::empty());
        assert(first.last() == s[0]);
        if s[0].id != id {
            assert(first.filter(not_called(id)) =~= first);
        } else {
            assert(first.filter(not_called(id)) =~= Seq::empty());
        }
        assert(session::kept(s, id) =~= s.filter(not_called(id)));
    } else {
        assert(s.filter(not_called(id)) =~= Seq::empty());
    }
}

/// What is left after a deletion is every conversation of another name, in order. Where
/// the active one went, the last of them is active, or none where none is left; otherwise
/// the active one stays so.
pub proof fn law_deleting_keeps_the_order(s: StoreV, id: Seq<char>)
    ensures
        ({
            let t = session::deleted(s, id);
            let left = s.sessions.filter(not_called(id));
            &&& t.sessions == left
            &&& s.active != id ==> t.active == s.active
            &&& s.active == id && left.len() > 0 ==> t.active == left.last().id
            &&& s.active == id && left.len() == 0 ==> t.active.len() == 0
            &&& t.totals == s.totals
            &&& t.totals_cost_usd == s.totals_cost_usd
        }),
{
    lemma_kept_in_order(s.sessions, id);
}

/// What is small enough is stored whole. Of a store that is too large the oldest
/// conversations that are not active go first, one after the other, and all that stands
/// beside the conversations stays.
pub proof fn law_the_oldest_is_not_stored(
    v: json::Tree,
    active: Seq<char>,
    n: nat,
    items: Seq<json::Tree>,
    i: int,
    key: Seq<char>,
) -> (w: json::Tree)
    requires
        json::field(v, "sessions"@) == Some(json::Tree::Arr(items)),
    ensures
        session::byte_len(json::json_text(v)) < 1_200_000 ==> session::shrunk(v, active, n) == v,
        session::byte_len(json::json_text(v)) >= 1_200_000 && items.len() > 1 && 0 <= i
            < items.len() && json::field(items[i], "id"@) != Some(json::Tree::Str(active)) && (
        forall|k: int|
            0 <= k < i ==> json::field(#[trigger] items[k], "id"@) == Some(
                json::Tree::Str(active),
            )) ==> {
            &&& session::shrunk(v, active, n + 1) == session::shrunk(w, active, n)
            &&& json::field(w, "sessions"@) == Some(json::Tree::Arr(items.remove(i)))
            &&& key != "sessions"@ ==> json::field(w, key) == json::field(v, key)
        },
{
    let gone = json::Tree::Arr(items.remove(i));
    let w = session::set_field(v, "sessions"@, gone);
    session::lemma_set_from(v->Obj_0, "sessions"@, gone, key, 0);
    if session::byte_len(json::json_text(v)) >= 1_200_000 && items.len() > 1 && 0 <= i < items.len()
        && json::field(items[i], "id"@) != Some(json::Tree::Str(active)) && (forall|k: int|
        0 <= k < i ==> json::field(#[trigger] items[k], "id"@) == Some(json::Tree::Str(active))) {
        lemma_first_stored(items, active, i, 0);
    }
    w
}

proof fn lemma_first_stored(items: Seq<json::Tree>, active: Seq<char>, i: int, k: int)
    requires
        0 <= k <= i < items.len(),
        json::field(items[i], "id"@) != Some(json::Tree::Str(active)),
        forall|j: int|
            0 <= j < i ==> json::field(#[trigger] items[j], "id"@) == Some(
                json::Tree::Str(active),
            ),
    ensures
        session::stored_other(items, active, k) == i,
    decreases i - k,
{
    if k < i {
        assert(json::field(items[k], "id"@) == Some(json::Tree::Str(active)));
        lemma_first_stored(items, active, i, k + 1);
    }
}

/// A conversation is found by its name: the first that has it.
pub proof fn law_a_conversation_is_found_by_its_name(s: Seq<SessionV>, id: Seq<char>, i: int)
    requires
        0 <= i <= s.len(),
        i < s.len() ==> s[i].id == id,
        forall|k: int| 0 <= k < i ==> (#[trigger] s[k]).id != id,
    ensures
        session::find(s, id) == i,
{
    lemma_find_at(s, id, i, 0);
}

proof fn lemma_find_at(s: Seq<SessionV>, id: Seq<char>, i: int, k: int)
    requires
        0 <= k <= i <= s.len(),
        i < s.len() ==> s[i].id == id,
        forall|k: int| 0 <= k < i ==> (#[trigger] s[k]).id != id,
    ensures
        session::find_from(s, id, k) == i,
    decreases i - k,
{
    if k < i {
        assert(s[k].id != id);
        lemma_find_at(s, id, i, k + 1);
    }
}

} // verus!
