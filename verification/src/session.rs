//! Conversations and their history: several conversations side by side, kept in the
//! host's storage, each with its messages, its trace and the write that awaits the
//! user's word; and the trimming of a history to what the model can take.

use crate::config;
use crate::date;
use crate::json;
use crate::json::{Json, Num, Rec};
use crate::text;
use crate::usage;
use crate::usage::Usage;
use vstd::prelude::*;

pub mod laws;

verus! {

pub const STORE_KEY: &'static str = "harness.v1";

pub const MAX_SESSIONS: usize = 24;

pub const MAX_TRACE: usize = 150;

/// The bytes that the stored conversations may take.
pub const MAX_BYTES: usize = 1_200_000;

/// One message of a conversation.
#[derive(Debug)]
pub struct Msg {
    pub role: String,
    pub content: Option<String>,
    /// What the model thought; sent back only with the tool calls it led to.
    pub reasoning: Option<String>,
    pub tool_calls: Option<Json>,
    pub tool_call_id: Option<String>,
    pub name: Option<String>,
}

pub struct MsgV {
    pub role: Seq<char>,
    pub content: Option<Seq<char>>,
    pub reasoning: Option<Seq<char>>,
    pub tool_calls: Option<json::Tree>,
    pub tool_call_id: Option<Seq<char>>,
    pub name: Option<Seq<char>>,
}

impl View for Msg {
    type V = MsgV;

    open spec fn view(&self) -> MsgV {
        MsgV {
            role: self.role@,
            content: text::option_text(self.content),
            reasoning: text::option_text(self.reasoning),
            tool_calls: json::option_tree(self.tool_calls),
            tool_call_id: text::option_text(self.tool_call_id),
            name: text::option_text(self.name),
        }
    }
}

/// The messages of a sequence.
pub open spec fn msgs_of(v: Seq<Msg>) -> Seq<MsgV> {
    v.map_values(|m: Msg| m@)
}

/// A message of which only the role and the text are set.
pub open spec fn plain_msg(role: Seq<char>, content: Seq<char>) -> MsgV {
    MsgV {
        role,
        content: Some(content),
        reasoning: None,
        tool_calls: None,
        tool_call_id: None,
        name: None,
    }
}

/// The result of a tool call.
pub open spec fn tool_msg(id: Seq<char>, content: Seq<char>) -> MsgV {
    MsgV { tool_call_id: Some(id), ..plain_msg("tool"@, content) }
}

pub open spec fn push_some(
    fields: Seq<(Seq<char>, json::Tree)>,
    key: Seq<char>,
    v: Option<json::Tree>,
) -> Seq<(Seq<char>, json::Tree)> {
    match v {
        Some(x) => fields.push((key, x)),
        None => fields,
    }
}

pub open spec fn str_tree(s: Option<Seq<char>>) -> Option<json::Tree> {
    match s {
        Some(t) => Some(json::Tree::Str(t)),
        None => None,
    }
}

/// The content as it is sent: that of the assistant is never left out.
pub open spec fn sent_content(m: MsgV) -> Option<json::Tree> {
    if m.role == "assistant"@ && m.content is None {
        Some(json::Tree::Str(Seq::empty()))
    } else {
        str_tree(m.content)
    }
}

/// The reasoning as it is sent: only the assistant's, and only with tool calls.
pub open spec fn sent_reasoning(m: MsgV) -> Option<json::Tree> {
    match m.reasoning {
        Some(r) => if m.role == "assistant"@ && m.tool_calls is Some && r.len() > 0 {
            Some(json::Tree::Str(r))
        } else {
            None
        },
        None => None,
    }
}

/// A message as it is sent to the model.
pub open spec fn sent(m: MsgV) -> json::Tree {
    let a = json::no_fields().push(("role"@, json::Tree::Str(m.role)));
    let b = push_some(a, "content"@, sent_content(m));
    let c = push_some(b, "reasoning_content"@, sent_reasoning(m));
    let d = push_some(c, "tool_calls"@, m.tool_calls);
    let e = push_some(d, "tool_call_id"@, str_tree(m.tool_call_id));
    json::Tree::Obj(push_some(e, "name"@, str_tree(m.name)))
}

impl Msg {
    fn plain(role: &str, content: &str) -> (r: Msg)
        ensures
            r@ == plain_msg(role@, content@),
    {
        Msg {
            role: role.to_owned(),
            content: Some(content.to_owned()),
            reasoning: None,
            tool_calls: None,
            tool_call_id: None,
            name: None,
        }
    }

    pub fn user(content: &str) -> (r: Msg)
        ensures
            r@ == plain_msg("user"@, content@),
    {
        Msg::plain("user", content)
    }

    pub fn assistant(content: &str) -> (r: Msg)
        ensures
            r@ == plain_msg("assistant"@, content@),
    {
        Msg::plain("assistant", content)
    }

    pub fn system(content: &str) -> (r: Msg)
        ensures
            r@ == plain_msg("system"@, content@),
    {
        Msg::plain("system", content)
    }

    pub fn tool_result(call_id: &str, content: &str) -> (r: Msg)
        ensures
            r@ == tool_msg(call_id@, content@),
    {
        let mut m = Msg::plain("tool", content);
        m.tool_call_id = Some(call_id.to_owned());
        m
    }

    /// The message as it is sent to the model.
    pub fn to_value(&self) -> (r: Json)
        ensures
            r@ == sent(self@),
    {
        let mut m = Rec::new().text("role", self.role.as_str());
        let assistant = text::same(self.role.as_str(), "assistant");
        match &self.content {
            Some(c) => {
                m = m.text("content", c.as_str());
            },
            None => {
                if assistant {
                    m = m.with("content", Json::Text(String::new()));
                }
            },
        }
        if assistant && self.tool_calls.is_some() {
            if let Some(r) = &self.reasoning {
                if !r.as_str().is_empty() {
                    m = m.text("reasoning_content", r.as_str());
                }
            }
        }
        if let Some(tc) = &self.tool_calls {
            m = m.with("tool_calls", tc.clone());
        }
        if let Some(id) = &self.tool_call_id {
            m = m.text("tool_call_id", id.as_str());
        }
        if let Some(n) = &self.name {
            m = m.text("name", n.as_str());
        }
        m.done()
    }
}

impl Clone for Msg {
    fn clone(&self) -> (r: Self)
        ensures
            r@ == self@,
    {
        Msg {
            role: self.role.clone(),
            content: text::copy_option(&self.content),
            reasoning: text::copy_option(&self.reasoning),
            tool_calls: json::copy_json_option(&self.tool_calls),
            tool_call_id: text::copy_option(&self.tool_call_id),
            name: text::copy_option(&self.name),
        }
    }
}

pub fn copy_msgs(v: &Vec<Msg>) -> (r: Vec<Msg>)
    ensures
        msgs_of(r@) == msgs_of(v@),
{
    let mut out: Vec<Msg> = Vec::new();
    let mut i: usize = 0;
    while i < v.len()
        invariant
            i <= v@.len(),
            msgs_of(out@) == msgs_of(v@).take(i as int),
        decreases v@.len() - i,
    {
        let ghost before = out@;
        out.push(v[i].clone());
        assert(msgs_of(out@) =~= msgs_of(before).push(v@[i as int]@));
        assert(msgs_of(v@).take(i + 1) =~= msgs_of(v@).take(i as int).push(v@[i as int]@));
        i += 1;
    }
    assert(msgs_of(v@).take(v@.len() as int) =~= msgs_of(v@));
    out
}

/// A write that awaits the user's word.
#[derive(Debug)]
pub struct PendingAction {
    pub tool: String,
    pub args: Json,
    pub summary: String,
}

pub struct PendingV {
    pub tool: Seq<char>,
    pub args: json::Tree,
    pub summary: Seq<char>,
}

impl View for PendingAction {
    type V = PendingV;

    open spec fn view(&self) -> PendingV {
        PendingV { tool: self.tool@, args: self.args@, summary: self.summary@ }
    }
}

pub open spec fn pending_of(p: Option<PendingAction>) -> Option<PendingV> {
    match p {
        Some(x) => Some(x@),
        None => None,
    }
}

impl Clone for PendingAction {
    fn clone(&self) -> (r: Self)
        ensures
            r@ == self@,
    {
        PendingAction {
            tool: self.tool.clone(),
            args: self.args.clone(),
            summary: self.summary.clone(),
        }
    }
}

/// One conversation.
#[derive(Debug)]
pub struct Session {
    pub id: String,
    pub title: String,
    pub created_at: u64,
    pub updated_at: u64,
    pub messages: Vec<Msg>,
    /// What was done, for the user to see.
    pub trace: Vec<String>,
    pub usage: Usage,
    pub cost_usd: Num,
    /// The write that awaits the user's word.
    pub pending: Option<PendingAction>,
}

pub struct SessionV {
    pub id: Seq<char>,
    pub title: Seq<char>,
    pub created_at: u64,
    pub updated_at: u64,
    pub messages: Seq<MsgV>,
    pub trace: Seq<Seq<char>>,
    pub usage: Usage,
    pub cost_usd: json::Tree,
    pub pending: Option<PendingV>,
}

impl View for Session {
    type V = SessionV;

    open spec fn view(&self) -> SessionV {
        SessionV {
            id: self.id@,
            title: self.title@,
            created_at: self.created_at,
            updated_at: self.updated_at,
            messages: msgs_of(self.messages@),
            trace: text::texts(self.trace@),
            usage: self.usage,
            cost_usd: self.cost_usd@,
            pending: pending_of(self.pending),
        }
    }
}

pub open spec fn sessions_of(v: Seq<Session>) -> Seq<SessionV> {
    v.map_values(|s: Session| s@)
}

impl Clone for Session {
    fn clone(&self) -> (r: Self)
        ensures
            r@ == self@,
    {
        Session {
            id: self.id.clone(),
            title: self.title.clone(),
            created_at: self.created_at,
            updated_at: self.updated_at,
            messages: copy_msgs(&self.messages),
            trace: text::copy_texts(&self.trace),
            usage: self.usage,
            cost_usd: self.cost_usd.clone(),
            pending: match &self.pending {
                Some(p) => Some(p.clone()),
                None => None,
            },
        }
    }
}

/// All conversations, and the one that is active.
#[derive(Debug)]
pub struct Store {
    pub v: u32,
    pub active: String,
    pub seq: u64,
    pub totals: Usage,
    pub totals_cost_usd: Num,
    pub sessions: Vec<Session>,
}

pub struct StoreV {
    pub v: u32,
    pub active: Seq<char>,
    pub seq: u64,
    pub totals: Usage,
    pub totals_cost_usd: json::Tree,
    pub sessions: Seq<SessionV>,
}

impl View for Store {
    type V = StoreV;

    open spec fn view(&self) -> StoreV {
        StoreV {
            v: self.v,
            active: self.active@,
            seq: self.seq,
            totals: self.totals,
            totals_cost_usd: self.totals_cost_usd@,
            sessions: sessions_of(self.sessions@),
        }
    }
}

impl Clone for Store {
    fn clone(&self) -> (r: Self)
        ensures
            r@ == self@,
    {
        let mut out: Vec<Session> = Vec::new();
        let mut i: usize = 0;
        while i < self.sessions.len()
            invariant
                i <= self.sessions@.len(),
                sessions_of(out@) == sessions_of(self.sessions@).take(i as int),
            decreases self.sessions@.len() - i,
        {
            let ghost before = out@;
            let ghost x = self.sessions@[i as int]@;
            out.push(self.sessions[i].clone());
            assert(sessions_of(out@) =~= sessions_of(before).push(x));
            assert(sessions_of(self.sessions@).take(i + 1) =~= sessions_of(self.sessions@).take(
                i as int,
            ).push(x));
            i += 1;
        }
        assert(sessions_of(self.sessions@).take(self.sessions@.len() as int) =~= sessions_of(
            self.sessions@,
        ));
        Store {
            v: self.v,
            active: self.active.clone(),
            seq: self.seq,
            totals: self.totals,
            totals_cost_usd: self.totals_cost_usd.clone(),
            sessions: out,
        }
    }
}

/// No money, as a JSON number.
pub open spec fn no_cost() -> json::Tree {
    json::Tree::Float("0.0"@)
}

pub fn zero_cost() -> (r: Num)
    ensures
        r@ == no_cost(),
{
    Num::Float("0.0".to_owned())
}

/// A store without conversations.
pub open spec fn empty_store(v: u32) -> StoreV {
    StoreV {
        v,
        active: Seq::empty(),
        seq: 0,
        totals: usage::zero(),
        totals_cost_usd: no_cost(),
        sessions: Seq::empty(),
    }
}

/// The readings of the clocks that a new conversation is stamped with.
#[derive(Clone, Copy, Debug, PartialEq, Eq, Structural)]
pub struct Stamp {
    pub millis: i64,
    pub created: u64,
    pub updated: u64,
}

/// The name of a conversation: the time of its making and its number.
pub open spec fn session_id(millis: i64, seq: int) -> Seq<char> {
    "s"@ + text::signed_decimal(millis as int) + text::decimal(seq as nat)
}

pub open spec fn fresh_session(title: Seq<char>, stamp: Stamp, seq: int) -> SessionV {
    SessionV {
        id: session_id(stamp.millis, seq),
        title: text::first_chars(title, 24),
        created_at: stamp.created,
        updated_at: stamp.updated,
        messages: Seq::empty(),
        trace: Seq::empty(),
        usage: usage::zero(),
        cost_usd: no_cost(),
        pending: None,
    }
}

/// The first position at or after `i` of a conversation with the name `id`, or the
/// number of conversations.
pub open spec fn find_from(s: Seq<SessionV>, id: Seq<char>, i: int) -> int
    decreases s.len() - i,
{
    if i < s.len() && s[i].id != id {
        find_from(s, id, i + 1)
    } else {
        i
    }
}

pub open spec fn find(s: Seq<SessionV>, id: Seq<char>) -> int {
    find_from(s, id, 0)
}

/// The first position at or after `i` of a conversation with neither name.
pub open spec fn other_from(s: Seq<SessionV>, a: Seq<char>, b: Seq<char>, i: int) -> int
    decreases s.len() - i,
{
    if i < s.len() && (s[i].id == a || s[i].id == b) {
        other_from(s, a, b, i + 1)
    } else {
        i
    }
}

/// The conversations that are left where there is one too many: the oldest that is
/// neither active nor new goes, and where there is none such the first.
pub open spec fn evicted(s: Seq<SessionV>, active: Seq<char>, id: Seq<char>) -> Seq<SessionV> {
    if s.len() > MAX_SESSIONS {
        let i = other_from(s, active, id, 0);
        if i < s.len() {
            s.remove(i)
        } else {
            s.remove(0)
        }
    } else {
        s
    }
}

/// The store with a new conversation, which is active.
pub open spec fn opened(s: StoreV, title: Seq<char>, stamp: Stamp) -> StoreV {
    let id = session_id(stamp.millis, s.seq + 1);
    StoreV {
        active: id,
        seq: (s.seq + 1) as u64,
        sessions: evicted(s.sessions.push(fresh_session(title, stamp, s.seq + 1)), s.active, id),
        ..s
    }
}

/// There is an active conversation.
pub open spec fn has_active(s: StoreV) -> bool {
    s.active.len() > 0 && find(s.sessions, s.active) < s.sessions.len()
}

/// The store with an active conversation: as it is, or with a new one.
pub open spec fn activated(s: StoreV, stamp: Stamp) -> StoreV {
    if has_active(s) {
        s
    } else {
        opened(s, "新会话"@, stamp)
    }
}

/// The conversations without those of the name `id`.
pub open spec fn kept(s: Seq<SessionV>, id: Seq<char>) -> Seq<SessionV>
    decreases s.len(),
{
    if s.len() == 0 {
        Seq::empty()
    } else if s[0].id == id {
        kept(s.skip(1), id)
    } else {
        seq![s[0]] + kept(s.skip(1), id)
    }
}

/// The store without the conversation `id`; where it was active, the last of the
/// others is.
pub open spec fn deleted(s: StoreV, id: Seq<char>) -> StoreV {
    let left = kept(s.sessions, id);
    StoreV {
        sessions: left,
        active: if s.active == id {
            if left.len() > 0 {
                left.last().id
            } else {
                Seq::empty()
            }
        } else {
            s.active
        },
        ..s
    }
}

pub proof fn lemma_sessions_update(v: Seq<Session>, i: int, x: Session)
    requires
        0 <= i < v.len(),
    ensures
        sessions_of(v.update(i, x)) == sessions_of(v).update(i, x@),
{
    assert(sessions_of(v.update(i, x)) =~= sessions_of(v).update(i, x@));
}

proof fn lemma_find_bound(s: Seq<SessionV>, id: Seq<char>, i: int)
    requires
        0 <= i <= s.len(),
    ensures
        i <= find_from(s, id, i) <= s.len(),
        find_from(s, id, i) < s.len() ==> s[find_from(s, id, i)].id == id,
        forall|k: int| i <= k < find_from(s, id, i) ==> s[k].id != id,
    decreases s.len() - i,
{
    if i < s.len() && s[i].id != id {
        lemma_find_bound(s, id, i + 1);
    }
}

impl Store {
    /// A store without conversations.
    pub fn empty(v: u32) -> (r: Store)
        ensures
            r@ == empty_store(v),
    {
        let r = Store {
            v,
            active: String::new(),
            seq: 0,
            totals: Usage::default(),
            totals_cost_usd: zero_cost(),
            sessions: Vec::new(),
        };
        assert(r@.sessions =~= Seq::empty());
        r
    }

    /// The store that storage holds: `raw` is what it gave, null where it gave nothing
    /// or failed, and `parsed` the store that is written there, where it is one.
    pub fn load(raw: &Json, parsed: Option<Store>) -> (r: Store)
        ensures
            raw@ is Null ==> r@ == empty_store(1),
            !(raw@ is Null) && parsed is Some ==> r == parsed->Some_0,
            !(raw@ is Null) && parsed is None ==> r@ == empty_store(0),
    {
        if raw.is_null() {
            return Store::empty(1);
        }
        match parsed {
            Some(s) => s,
            None => Store::empty(0),
        }
    }

    /// What goes to storage of a store written as `payload`: where that is too large,
    /// the oldest conversations are left out, never the active one.
    pub fn save(payload: Json) -> (r: Json)
        ensures
            r@ == shrunk(payload@, json::text_at(payload@, "active"@), MAX_SESSIONS as nat),
    {
        let active = payload.text("active");
        let mut v = payload;
        let mut left: usize = MAX_SESSIONS;
        while left > 0
            invariant
                left <= MAX_SESSIONS,
                active@ == json::text_at(payload@, "active"@),
                shrunk(v@, active@, left as nat) == shrunk(payload@, active@, MAX_SESSIONS as nat),
            decreases left,
        {
            match shrink_once(&v, active.as_str()) {
                Some(w) => {
                    v = w;
                },
                None => {
                    return v;
                },
            }
            left -= 1;
        }
        v
    }

    /// The position of the conversation `id`, or the number of conversations.
    pub fn position(&self, id: &str) -> (r: usize)
        ensures
            r == find(self@.sessions, id@),
            r <= self.sessions@.len(),
            r < self.sessions@.len() ==> self.sessions@[r as int].id@ == id@,
    {
        let mut i: usize = 0;
        while i < self.sessions.len()
            invariant
                i <= self.sessions@.len(),
                find_from(self@.sessions, id@, i as int) == find(self@.sessions, id@),
            decreases self.sessions@.len() - i,
        {
            assert(self@.sessions[i as int] == self.sessions@[i as int]@);
            if text::same(self.sessions[i].id.as_str(), id) {
                return i;
            }
            i += 1;
        }
        i
    }

    /// The active conversation, where there is one.
    pub fn active_mut(&mut self) -> (r: Option<&mut Session>)
        ensures
            ({
                let i = find(old(self)@.sessions, old(self)@.active);
                match r {
                    Some(s) => {
                        &&& i < old(self).sessions@.len()
                        &&& *s == old(self).sessions@[i]
                        &&& final(self).sessions@ == old(self).sessions@.update(i, *final(s))
                        &&& final(self)@ == (StoreV {
                            sessions: old(self)@.sessions.update(i, final(s)@),
                            ..old(self)@
                        })
                    },
                    None => i == old(self).sessions@.len() && *final(self) == *old(self),
                }
            }),
    {
        let i = self.position(self.active.as_str());
        if i < self.sessions.len() {
            proof {
                assert forall|x: Session| #[trigger] sessions_of(self.sessions@.update(i as int, x))
                    == sessions_of(self.sessions@).update(i as int, x@) by {
                    lemma_sessions_update(self.sessions@, i as int, x);
                }
            }
            Some(&mut self.sessions[i])
        } else {
            None
        }
    }

    /// Opens a new conversation under the stamp, makes it active, and lets the oldest
    /// go where there are too many.
    pub fn open_session(&mut self, title: &str, stamp: Stamp)
        requires
            old(self).seq < u64::MAX,
        ensures
            final(self)@ == opened(old(self)@, title@, stamp),
            final(self).sessions@.len() > 0,
            final(self)@.sessions.last() == fresh_session(title@, stamp, old(self).seq + 1),
    {
        let ghost before = *self;
        self.seq = self.seq + 1;
        let mut id = "s".to_owned();
        id.append(text::write_i64(stamp.millis).as_str());
        id.append(text::write_u64(self.seq).as_str());
        let s = Session {
            id: id.clone(),
            title: text::take_chars(title, 24),
            created_at: stamp.created,
            updated_at: stamp.updated,
            messages: Vec::new(),
            trace: Vec::new(),
            usage: Usage::default(),
            cost_usd: zero_cost(),
            pending: None,
        };
        let ghost new = fresh_session(title@, stamp, before.seq + 1);
        assert(s@.messages =~= Seq::empty());
        assert(s@.trace =~= Seq::empty());
        assert(s@ == new);
        let ghost full = before@.sessions.push(new);
        self.sessions.push(s);
        assert(self@.sessions =~= full);
        if self.sessions.len() > MAX_SESSIONS {
            let mut i: usize = 0;
            while i < self.sessions.len() && (text::same(
                self.sessions[i].id.as_str(),
                self.active.as_str(),
            ) || text::same(self.sessions[i].id.as_str(), id.as_str()))
                invariant
                    i <= self.sessions@.len(),
                    self@.sessions == full,
                    self.active@ == before@.active,
                    id@ == new.id,
                    other_from(full, before@.active, new.id, i as int) == other_from(
                        full,
                        before@.active,
                        new.id,
                        0,
                    ),
                    self.seq == before.seq + 1,
                    self.v == before.v,
                    self.totals == before.totals,
                    self.totals_cost_usd == before.totals_cost_usd,
                decreases self.sessions@.len() - i,
            {
                assert(self@.sessions[i as int] == self.sessions@[i as int]@);
                i += 1;
            }
            assert(i < self.sessions@.len() ==> self@.sessions[i as int] == self.sessions@[i as int]@);
            if i < self.sessions.len() {
                assert(i < full.len() - 1) by {
                    assert(full.last().id == new.id);
                }
                self.sessions.remove(i);
                assert(self@.sessions =~= full.remove(i as int));
            } else {
                self.sessions.remove(0);
                assert(self@.sessions =~= full.remove(0));
            }
        }
        self.active = id;
        assert(self@.sessions.last() == new);
    }

    /// Opens a conversation where there is no active one, and tells where the active
    /// one stands.
    pub fn activate(&mut self, stamp: Stamp) -> (r: usize)
        requires
            old(self).seq < u64::MAX,
        ensures
            final(self)@ == activated(old(self)@, stamp),
            r == find(final(self)@.sessions, final(self)@.active),
            r < final(self).sessions@.len(),
    {
        let at = self.position(self.active.as_str());
        if self.active.as_str().is_empty() || at >= self.sessions.len() {
            self.open_session("新会话", stamp);
            proof {
                let s = self@.sessions;
                lemma_find_bound(s, self@.active, 0);
                assert(s[s.len() - 1].id == self@.active);
            }
            return self.position(self.active.as_str());
        }
        at
    }

    /// The active conversation; a new one where there is none.
    pub fn ensure_active(&mut self) -> (r: &mut Session)
        requires
            old(self).seq < u64::MAX,
        ensures
            exists|stamp: Stamp| {
                let s = #[trigger] activated(old(self)@, stamp);
                let i = find(s.sessions, s.active);
                &&& i < s.sessions.len()
                &&& r@ == s.sessions[i]
                &&& final(self)@ == StoreV { sessions: s.sessions.update(i, final(r)@), ..s }
            },
    {
        let stamp = stamp_now();
        let i = self.activate(stamp);
        assert(self@ == activated(old(self)@, stamp));
        proof {
            assert forall|x: Session| #[trigger] sessions_of(self.sessions@.update(i as int, x))
                == sessions_of(self.sessions@).update(i as int, x@) by {
                lemma_sessions_update(self.sessions@, i as int, x);
            }
        }
        &mut self.sessions[i]
    }

    /// Opens a new conversation, which is active.
    pub fn new_session(&mut self, title: &str) -> (r: &mut Session)
        requires
            old(self).seq < u64::MAX,
        ensures
            exists|stamp: Stamp| {
                let s = #[trigger] opened(old(self)@, title@, stamp);
                &&& s.sessions.len() > 0
                &&& r@ == s.sessions.last()
                &&& final(self)@ == StoreV {
                    sessions: s.sessions.update(s.sessions.len() - 1, final(r)@),
                    ..s
                }
            },
    {
        let stamp = stamp_now();
        self.open_session(title, stamp);
        assert(self@ == opened(old(self)@, title@, stamp));
        let i = self.sessions.len() - 1;
        proof {
            assert forall|x: Session| #[trigger] sessions_of(self.sessions@.update(i as int, x))
                == sessions_of(self.sessions@).update(i as int, x@) by {
                lemma_sessions_update(self.sessions@, i as int, x);
            }
        }
        &mut self.sessions[i]
    }

    /// Makes the conversation `id` active, where there is one.
    pub fn switch(&mut self, id: &str) -> (r: bool)
        ensures
            r == (find(old(self)@.sessions, id@) < old(self)@.sessions.len()),
            final(self)@ == (if r {
                StoreV { active: id@, ..old(self)@ }
            } else {
                old(self)@
            }),
    {
        let i = self.position(id);
        if i < self.sessions.len() {
            self.active = id.to_owned();
            true
        } else {
            false
        }
    }

    /// Deletes the conversation `id`, and tells whether there was one.
    pub fn delete(&mut self, id: &str) -> (r: bool)
        ensures
            final(self)@ == deleted(old(self)@, id@),
            r == (find(old(self)@.sessions, id@) < old(self)@.sessions.len()),
    {
        let before = self.sessions.len();
        let mut all: Vec<Session> = Vec::new();
        std::mem::swap(&mut all, &mut self.sessions);
        let mut left: Vec<Session> = Vec::new();
        let ghost start = sessions_of(all@);
        assert(sessions_of(left@) =~= Seq::empty());
        assert(sessions_of(left@) + kept(start, id@) =~= kept(start, id@));
        while all.len() > 0
            invariant
                kept(start, id@) == sessions_of(left@) + kept(sessions_of(all@), id@),
            decreases all@.len(),
        {
            let ghost rest = sessions_of(all@);
            let s = all.remove(0);
            assert(sessions_of(all@) =~= rest.skip(1));
            assert(rest[0] == s@);
            if !text::same(s.id.as_str(), id) {
                let ghost old_left = left@;
                left.push(s);
                assert(sessions_of(left@) =~= sessions_of(old_left).push(s@));
                assert(sessions_of(old_left) + (seq![s@] + kept(rest.skip(1), id@)) =~= sessions_of(
                    left@,
                ) + kept(rest.skip(1), id@));
            }
        }
        assert(sessions_of(left@) + Seq::<SessionV>::empty() =~= sessions_of(left@));
        self.sessions = left;
        let after = self.sessions.len();
        proof {
            lemma_kept_len(start, id@);
        }
        if text::same(self.active.as_str(), id) {
            self.active = if after > 0 {
                assert(self@.sessions.last() == self.sessions@[after - 1]@);
                self.sessions[after - 1].id.clone()
            } else {
                String::new()
            };
        }
        after != before
    }
}

proof fn lemma_kept_len(s: Seq<SessionV>, id: Seq<char>)
    ensures
        kept(s, id).len() <= s.len(),
        find(s, id) <= s.len(),
        kept(s, id).len() == s.len() <==> find(s, id) == s.len(),
    decreases s.len(),
{
    lemma_find_bound(s, id, 0);
    if s.len() > 0 {
        lemma_kept_len(s.skip(1), id);
        lemma_find_bound(s.skip(1), id, 0);
        if s[0].id != id {
            lemma_find_skip(s, id, 1);
        }
    }
}

proof fn lemma_find_skip(s: Seq<SessionV>, id: Seq<char>, i: int)
    requires
        1 <= i <= s.len(),
    ensures
        find_from(s, id, i) == find_from(s.skip(1), id, i - 1) + 1,
    decreases s.len() - i,
{
    if i < s.len() && s[i].id != id {
        lemma_find_skip(s, id, i + 1);
    }
}

/// The present time in milliseconds of Unix time: `std::time::SystemTime::now`, zero
/// where the clock stands before 1970. Nothing else is stated of it.
#[verifier::external_body]
pub fn now_ms() -> (r: u64) {
    std::time::SystemTime::now().duration_since(std::time::UNIX_EPOCH).map(|d| d.as_millis() as u64).unwrap_or(0)
}

fn stamp_now() -> (r: Stamp) {
    Stamp { millis: date::utc_millis(), created: now_ms(), updated: now_ms() }
}

/// The first field named `key` holds `v` instead.
pub open spec fn set_from(
    fields: Seq<(Seq<char>, json::Tree)>,
    key: Seq<char>,
    v: json::Tree,
    i: int,
) -> Seq<(Seq<char>, json::Tree)>
    decreases fields.len() - i,
{
    if i < 0 || i >= fields.len() {
        fields
    } else if fields[i].0 == key {
        fields.update(i, (key, v))
    } else {
        set_from(fields, key, v, i + 1)
    }
}

pub open spec fn set_field(t: json::Tree, key: Seq<char>, v: json::Tree) -> json::Tree {
    match t {
        json::Tree::Obj(fields) => json::Tree::Obj(set_from(fields, key, v, 0)),
        _ => t,
    }
}

/// The first position at or after `i` of a stored conversation other than `active`.
pub open spec fn stored_other(items: Seq<json::Tree>, active: Seq<char>, i: int) -> int
    decreases items.len() - i,
{
    if i < items.len() && json::str_of(json::field(items[i], "id"@)) == Some(active) {
        stored_other(items, active, i + 1)
    } else {
        i
    }
}

/// The bytes that a text takes.
pub open spec fn byte_len(s: Seq<char>) -> usize {
    vstd::utf8::encode_utf8(s).len() as usize
}

/// The payload without the oldest stored conversation that is not active, where the
/// payload is too large and holds another one.
pub open spec fn shrunk_once(v: json::Tree, active: Seq<char>) -> Option<json::Tree> {
    let items = json::elements_of(json::field(v, "sessions"@));
    let i = stored_other(items, active, 0);
    if byte_len(json::json_text(v)) < MAX_BYTES || items.len() <= 1 || i >= items.len() {
        None
    } else {
        Some(set_field(v, "sessions"@, json::Tree::Arr(items.remove(i))))
    }
}

/// The payload after at most `n` such steps.
pub open spec fn shrunk(v: json::Tree, active: Seq<char>, n: nat) -> json::Tree
    decreases n,
{
    if n == 0 {
        v
    } else {
        match shrunk_once(v, active) {
            Some(w) => shrunk(w, active, (n - 1) as nat),
            None => v,
        }
    }
}

fn with_field(v: &Json, key: &str, x: Json) -> (r: Json)
    ensures
        r@ == set_field(v@, key@, x@),
{
    match v {
        Json::Record(fields) => {
            let mut i: usize = 0;
            proof {
                json::lemma_record(*fields);
            }
            let ghost all = json::pairs(fields@);
            while i < fields.len() && !text::same(fields[i].0.as_str(), key)
                invariant
                    i <= fields@.len(),
                    all == json::pairs(fields@),
                    set_from(all, key@, x@, i as int) == set_from(all, key@, x@, 0),
                decreases fields@.len() - i,
            {
                assert(all[i as int].0 == fields@[i as int].0@);
                i += 1;
            }
            if i < fields.len() {
                assert(all[i as int].0 == fields@[i as int].0@);
                let mut copy = json::copy_fields(fields);
                let ghost before = copy@;
                copy[i] = (key.to_owned(), x);
                assert(json::pairs(copy@) =~= json::pairs(before).update(i as int, (key@, x@)));
                proof {
                    json::lemma_record(copy);
                }
                Json::Record(copy)
            } else {
                v.clone()
            }
        },
        _ => v.clone(),
    }
}

fn shrink_once(v: &Json, active: &str) -> (r: Option<Json>)
    ensures
        json::option_tree(r) == shrunk_once(v@, active@),
{
    if json::print(v).as_str().len() < MAX_BYTES {
        return None;
    }
    let mut items = v.items_at("sessions");
    if items.len() <= 1 {
        return None;
    }
    let ghost all = json::trees(items@);
    let mut i: usize = 0;
    while i < items.len() && is_stored(&items[i], active)
        invariant
            i <= items@.len(),
            all == json::trees(items@),
            stored_other(all, active@, i as int) == stored_other(all, active@, 0),
        decreases items@.len() - i,
    {
        assert(all[i as int] == items@[i as int]@);
        i += 1;
    }
    assert(i < items@.len() ==> all[i as int] == items@[i as int]@);
    if i >= items.len() {
        return None;
    }
    items.remove(i);
    assert(json::trees(items@) =~= all.remove(i as int));
    Some(with_field(v, "sessions", json::list(items)))
}

fn is_stored(s: &Json, id: &str) -> (r: bool)
    ensures
        r == (json::str_of(json::field(s@, "id"@)) == Some(id@)),
{
    match s.text_option("id") {
        Some(t) => text::same(t.as_str(), id),
        None => false,
    }
}

/// The estimated tokens of a message.
pub open spec fn msg_tokens(m: MsgV) -> nat {
    (match m.content {
        Some(c) => config::tokens(c),
        None => 0,
    }) + (match m.tool_calls {
        Some(tc) => config::tokens(json::json_text(tc)),
        None => 0,
    }) + 4
}

/// The estimated tokens of a history.
pub open spec fn history(msgs: Seq<MsgV>) -> nat
    decreases msgs.len(),
{
    if msgs.len() == 0 {
        0
    } else {
        history(msgs.drop_last()) + msg_tokens(msgs.last())
    }
}

/// The text's estimate, in a width that holds it.
fn wide_tokens(s: &str) -> (r: u128)
    ensures
        r == config::tokens(s@),
        r <= usize::MAX as u128 + 1,
{
    let (total, wide) = config::count_chars(s);
    wide as u128 + ((total - wide) / 4) as u128 + 1
}

fn message_tokens(m: &Msg) -> (r: u128)
    ensures
        r == msg_tokens(m@),
        r <= 2 * (usize::MAX as u128 + 1) + 4,
{
    let c: u128 = match &m.content {
        Some(c) => wide_tokens(c.as_str()),
        None => 0,
    };
    let t: u128 = match &m.tool_calls {
        Some(tc) => wide_tokens(json::print(tc).as_str()),
        None => 0,
    };
    c + t + 4
}

proof fn lemma_history_monotone(msgs: Seq<MsgV>, i: int)
    requires
        0 <= i <= msgs.len(),
    ensures
        history(msgs.take(i)) <= history(msgs),
    decreases msgs.len() - i,
{
    if i < msgs.len() {
        lemma_history_monotone(msgs, i + 1);
        assert(msgs.take(i + 1).drop_last() =~= msgs.take(i));
    } else {
        assert(msgs.take(i) =~= msgs);
    }
}

/// The history's estimate, where it is at most `budget`.
fn measure(msgs: &Vec<Msg>, budget: usize) -> (r: Option<usize>)
    ensures
        match r {
            Some(n) => n == history(msgs_of(msgs@)) && n <= budget,
            None => history(msgs_of(msgs@)) > budget,
        },
{
    let ghost all = msgs_of(msgs@);
    let mut sum: usize = 0;
    let mut i: usize = 0;
    assert(all.take(0) =~= Seq::empty());
    while i < msgs.len()
        invariant
            i <= msgs@.len(),
            all == msgs_of(msgs@),
            sum == history(all.take(i as int)),
            sum <= budget,
        decreases msgs@.len() - i,
    {
        assert(all.take(i + 1).drop_last() =~= all.take(i as int));
        assert(all.take(i + 1).last() == msgs@[i as int]@);
        let next: u128 = sum as u128 + message_tokens(&msgs[i]);
        if next > budget as u128 {
            proof {
                lemma_history_monotone(all, i + 1);
            }
            return None;
        }
        sum = next as usize;
        i += 1;
    }
    assert(all.take(all.len() as int) =~= all);
    Some(sum)
}

/// The estimated tokens of a history.
pub fn history_tokens(msgs: &Vec<Msg>) -> (r: usize)
    requires
        history(msgs_of(msgs@)) <= usize::MAX,
    ensures
        r == history(msgs_of(msgs@)),
{
    match measure(msgs, usize::MAX) {
        Some(n) => n,
        None => 0,
    }
}

/// The estimated tokens of a history, where their number can be represented.
pub fn checked_history_tokens(msgs: &Vec<Msg>) -> (r: Option<usize>)
    ensures
        match r {
            Some(n) => n == history(msgs_of(msgs@)),
            None => history(msgs_of(msgs@)) > usize::MAX,
        },
{
    match measure(msgs, usize::MAX) {
        Some(_) => Some(history_tokens(msgs)),
        None => None,
    }
}

/// The first position at or after `i` of a message that is not the system's.
pub open spec fn first_spoken(msgs: Seq<MsgV>, i: int) -> int
    decreases msgs.len() - i,
{
    if i < msgs.len() && msgs[i].role == "system"@ {
        first_spoken(msgs, i + 1)
    } else {
        i
    }
}

/// A tool result of which only the beginning is left.
pub open spec fn shortened(m: MsgV) -> MsgV {
    match m.content {
        Some(c) => MsgV {
            content: Some(text::first_chars(c, 60) + "（早前工具结果已省略）"@),
            ..m
        },
        None => m,
    }
}

/// The messages without the tool results that stand at `i` and right after it.
pub open spec fn drop_results(msgs: Seq<MsgV>, i: int) -> Seq<MsgV>
    decreases msgs.len(),
{
    if 0 <= i < msgs.len() && msgs[i].role == "tool"@ {
        drop_results(msgs.remove(i), i)
    } else {
        msgs
    }
}

/// The messages without the one at `i`, and without the tool results after it where
/// it holds tool calls.
pub open spec fn drop_turn(msgs: Seq<MsgV>, i: int) -> Seq<MsgV> {
    if msgs[i].tool_calls is Some {
        drop_results(msgs.remove(i), i)
    } else {
        msgs.remove(i)
    }
}

pub proof fn lemma_drop_results_len(msgs: Seq<MsgV>, i: int)
    ensures
        drop_results(msgs, i).len() <= msgs.len(),
    decreases msgs.len(),
{
    if 0 <= i < msgs.len() && msgs[i].role == "tool"@ {
        lemma_drop_results_len(msgs.remove(i), i);
    }
}

/// The history with its tool results from `i` on shortened one after the other, the
/// oldest first, until it is within the budget or none is left.
pub open spec fn shortened_from(msgs: Seq<MsgV>, budget: nat, i: int) -> Seq<MsgV>
    decreases msgs.len() - i,
{
    if history(msgs) <= budget || i < 0 || i >= msgs.len() {
        msgs
    } else if msgs[i].role == "tool"@ {
        shortened_from(msgs.update(i, shortened(msgs[i])), budget, i + 1)
    } else {
        shortened_from(msgs, budget, i + 1)
    }
}

/// The history without its oldest turns: while it is over the budget and holds more
/// than three messages, the oldest message that is not the system's goes.
pub open spec fn without_oldest(msgs: Seq<MsgV>, budget: nat) -> Seq<MsgV>
    decreases msgs.len(),
{
    let i = first_spoken(msgs, 0);
    if history(msgs) <= budget || msgs.len() <= 3 || !(0 <= i < msgs.len()) {
        msgs
    } else {
        proof {
            lemma_drop_results_len(msgs.remove(i), i);
        }
        without_oldest(drop_turn(msgs, i), budget)
    }
}

/// The history that is left of `msgs` under a budget. One within the budget, or of no
/// more than three messages, stays as it is. Of another the tool results are shortened
/// first, and only where that is not enough do the oldest turns go.
pub open spec fn trimmed_history(msgs: Seq<MsgV>, budget: nat) -> Seq<MsgV> {
    if history(msgs) <= budget || msgs.len() <= 3 {
        msgs
    } else {
        without_oldest(shortened_from(msgs, budget, 0), budget)
    }
}

fn is_role(m: &Msg, role: &str) -> (r: bool)
    ensures
        r == (m@.role == role@),
{
    text::same(m.role.as_str(), role)
}

fn spoken_at(msgs: &Vec<Msg>) -> (r: usize)
    ensures
        r == first_spoken(msgs_of(msgs@), 0),
        r <= msgs@.len(),
{
    let ghost all = msgs_of(msgs@);
    let mut i: usize = 0;
    while i < msgs.len() && is_role(&msgs[i], "system")
        invariant
            i <= msgs@.len(),
            all == msgs_of(msgs@),
            first_spoken(all, i as int) == first_spoken(all, 0),
        decreases msgs@.len() - i,
    {
        assert(all[i as int] == msgs@[i as int]@);
        i += 1;
    }
    assert(i < msgs@.len() ==> all[i as int] == msgs@[i as int]@);
    i
}

/// Shortens tool results, the oldest first, until the history is within the budget;
/// tells whether it is.
fn shorten_results(msgs: &mut Vec<Msg>, budget: usize) -> (r: bool)
    ensures
        msgs_of(final(msgs)@) == shortened_from(msgs_of(old(msgs)@), budget as nat, 0),
        r == (history(msgs_of(final(msgs)@)) <= budget),
{
    let mut i: usize = 0;
    while i < msgs.len()
        invariant
            i <= msgs@.len(),
            shortened_from(msgs_of(msgs@), budget as nat, i as int) == shortened_from(
                msgs_of(old(msgs)@),
                budget as nat,
                0,
            ),
        decreases msgs@.len() - i,
    {
        let ghost here = msgs_of(msgs@);
        if measure(msgs, budget).is_some() {
            return true;
        }
        assert(here[i as int] == msgs@[i as int]@);
        if is_role(&msgs[i], "tool") {
            let m = shorten(&msgs[i]);
            msgs[i] = m;
            assert(msgs_of(msgs@) =~= here.update(i as int, shortened(here[i as int])));
        }
        i += 1;
    }
    measure(msgs, budget).is_some()
}

/// Trims a history to a budget of estimated tokens.
pub fn trim_history(msgs: &mut Vec<Msg>, budget: usize)
    ensures
        msgs_of(final(msgs)@) == trimmed_history(msgs_of(old(msgs)@), budget as nat),
{
    if measure(msgs, budget).is_some() || msgs.len() <= 3 {
        return;
    }
    let mut fits = shorten_results(msgs, budget);
    let ghost cut = msgs_of(msgs@);
    while !fits && msgs.len() > 3
        invariant
            fits == (history(msgs_of(msgs@)) <= budget),
            without_oldest(msgs_of(msgs@), budget as nat) == without_oldest(cut, budget as nat),
        ensures
            msgs_of(msgs@) == without_oldest(cut, budget as nat),
        decreases msgs@.len(),
    {
        let ghost start = msgs_of(msgs@);
        let i = spoken_at(msgs);
        if i >= msgs.len() {
            break;
        }
        assert(start[i as int] == msgs@[i as int]@);
        let had_calls = msgs[i].tool_calls.is_some();
        msgs.remove(i);
        assert(msgs_of(msgs@) =~= start.remove(i as int));
        if had_calls {
            let ghost first = msgs_of(msgs@);
            while i < msgs.len() && is_role(&msgs[i], "tool")
                invariant
                    drop_results(msgs_of(msgs@), i as int) == drop_results(first, i as int),
                    msgs@.len() <= first.len(),
                decreases msgs@.len(),
            {
                let ghost here = msgs_of(msgs@);
                assert(here[i as int] == msgs@[i as int]@);
                msgs.remove(i);
                assert(msgs_of(msgs@) =~= here.remove(i as int));
            }
            assert(i < msgs@.len() ==> msgs_of(msgs@)[i as int] == msgs@[i as int]@);
        }
        assert(msgs_of(msgs@) == drop_turn(start, i as int));
        fits = measure(msgs, budget).is_some();
    }
}

fn shorten(m: &Msg) -> (r: Msg)
    ensures
        r@ == shortened(m@),
{
    let mut c = m.clone();
    c.content = match &m.content {
        Some(s) => Some(
            text::cat(text::take_chars(s.as_str(), 60).as_str(), "（早前工具结果已省略）"),
        ),
        None => None,
    };
    c
}

/// The message at `i` is not the system's, and where it is a tool result it stands
/// right after the tool calls it belongs to, or after another result of theirs.
pub open spec fn in_place(msgs: Seq<MsgV>, k: int, i: int) -> bool {
    &&& msgs[i].role != "system"@
    &&& msgs[i].role == "tool"@ ==> i > k && (msgs[i - 1].role == "tool"@ || msgs[i
        - 1].tool_calls is Some)
}

/// A history as it is sent: `k` messages of the system first, and each tool result
/// with its calls.
pub open spec fn paired(msgs: Seq<MsgV>, k: int) -> bool {
    &&& 0 <= k <= msgs.len()
    &&& forall|i: int| 0 <= i < k ==> (#[trigger] msgs[i]).role == "system"@
    &&& forall|i: int| k <= i < msgs.len() ==> #[trigger] in_place(msgs, k, i)
}

proof fn lemma_first_spoken(msgs: Seq<MsgV>, k: int, i: int)
    requires
        0 <= i <= k < msgs.len(),
        forall|j: int| 0 <= j < k ==> (#[trigger] msgs[j]).role == "system"@,
        msgs[k].role != "system"@,
    ensures
        first_spoken(msgs, i) == k,
    decreases k - i,
{
    if i < k {
        assert(msgs[i].role == "system"@);
        lemma_first_spoken(msgs, k, i + 1);
    }
}

/// Dropping results at `k` leaves what stands before and what stands after them.
proof fn lemma_drop_results(msgs: Seq<MsgV>, k: int) -> (j: int)
    requires
        0 <= k <= msgs.len(),
    ensures
        k <= j <= msgs.len(),
        drop_results(msgs, k) == msgs.take(k) + msgs.skip(j),
        j < msgs.len() ==> msgs[j].role != "tool"@,
        forall|i: int| k <= i < j ==> (#[trigger] msgs[i]).role == "tool"@,
    decreases msgs.len(),
{
    if k < msgs.len() && msgs[k].role == "tool"@ {
        let rest = msgs.remove(k);
        let j = lemma_drop_results(rest, k);
        assert(rest.take(k) =~= msgs.take(k));
        assert(rest.skip(j) =~= msgs.skip(j + 1));
        assert forall|i: int| k <= i < j + 1 implies (#[trigger] msgs[i]).role == "tool"@ by {
            if i > k {
                assert(rest[i - 1] == msgs[i]);
            }
        }
        assert(j < rest.len() ==> rest[j] == msgs[j + 1]);
        j + 1
    } else {
        assert(msgs.take(k) + msgs.skip(k) =~= msgs);
        k
    }
}

/// What is left once the oldest turn has gone.
proof fn lemma_drop_turn(msgs: Seq<MsgV>, k: int) -> (m: int)
    requires
        paired(msgs, k),
        k < msgs.len(),
    ensures
        k < m <= msgs.len(),
        drop_turn(msgs, k) == msgs.take(k) + msgs.skip(m),
        m < msgs.len() ==> msgs[m].role != "tool"@,
        msgs.last().role != "tool"@ && k + 1 < msgs.len() ==> m < msgs.len(),
        forall|i: int| k < i < m ==> (#[trigger] msgs[i]).role == "tool"@,
{
    let rest = msgs.remove(k);
    assert(in_place(msgs, k, k));
    assert(rest.take(k) =~= msgs.take(k));
    if msgs[k].tool_calls is Some {
        let m = lemma_drop_results(rest, k);
        assert(rest.skip(m) =~= msgs.skip(m + 1));
        assert(m < rest.len() ==> rest[m] == msgs[m + 1]);
        assert forall|i: int| k < i < m + 1 implies (#[trigger] msgs[i]).role == "tool"@ by {
            assert(rest[i - 1] == msgs[i]);
        }
        if m == rest.len() && k < m {
            assert(rest[m - 1].role == "tool"@);
            assert(rest[m - 1] == msgs.last());
        }
        m + 1
    } else {
        assert(rest =~= msgs.take(k) + msgs.skip(k + 1));
        if k + 1 < msgs.len() {
            assert(in_place(msgs, k, k + 1));
        }
        k + 1
    }
}

proof fn lemma_paired_suffix(msgs: Seq<MsgV>, k: int, m: int)
    requires
        paired(msgs, k),
        k <= m <= msgs.len(),
        m < msgs.len() ==> msgs[m].role != "tool"@,
    ensures
        paired(msgs.take(k) + msgs.skip(m), k),
{
    let next = msgs.take(k) + msgs.skip(m);
    assert forall|i: int| 0 <= i < k implies (#[trigger] next[i]).role == "system"@ by {
        assert(next[i] == msgs[i]);
    }
    assert forall|i: int| k <= i < next.len() implies #[trigger] in_place(next, k, i) by {
        assert(next[i] == msgs[i - k + m]);
        assert(in_place(msgs, k, i - k + m));
        if i > k {
            assert(next[i - 1] == msgs[i - 1 - k + m]);
        }
    }
}

/// What goes with the oldest turns: a run of the oldest messages after the system's.
proof fn lemma_without_oldest(msgs: Seq<MsgV>, k: int, budget: nat) -> (j: int)
    requires
        paired(msgs, k),
    ensures
        k <= j <= msgs.len(),
        without_oldest(msgs, budget) == msgs.take(k) + msgs.skip(j),
        paired(without_oldest(msgs, budget), k),
        history(without_oldest(msgs, budget)) <= budget || without_oldest(msgs, budget).len() <= 3
            || without_oldest(msgs, budget) == msgs.take(k),
        k <= 2 && k < msgs.len() && msgs.last().role != "tool"@ ==> j < msgs.len(),
    decreases msgs.len(),
{
    if k == msgs.len() {
        assert(msgs.take(k) =~= msgs);
        assert(msgs.take(k) + msgs.skip(k) =~= msgs);
        lemma_all_system(msgs, 0);
        k
    } else if history(msgs) <= budget || msgs.len() <= 3 {
        assert(msgs.take(k) + msgs.skip(k) =~= msgs);
        k
    } else {
        assert(in_place(msgs, k, k));
        lemma_first_spoken(msgs, k, 0);
        let m = lemma_drop_turn(msgs, k);
        let next = msgs.take(k) + msgs.skip(m);
        lemma_paired_suffix(msgs, k, m);
        let n = lemma_without_oldest(next, k, budget);
        assert(next.take(k) =~= msgs.take(k));
        assert(next.skip(n) =~= msgs.skip(n - k + m));
        if msgs.last().role != "tool"@ && m < msgs.len() {
            assert(next.last() == msgs.last());
        }
        n - k + m
    }
}

proof fn lemma_all_system(msgs: Seq<MsgV>, i: int)
    requires
        0 <= i <= msgs.len(),
        forall|j: int| 0 <= j < msgs.len() ==> (#[trigger] msgs[j]).role == "system"@,
    ensures
        first_spoken(msgs, i) == msgs.len(),
    decreases msgs.len() - i,
{
    if i < msgs.len() {
        assert(msgs[i].role == "system"@);
        lemma_all_system(msgs, i + 1);
    }
}

/// Each message is as it was, or it is a tool result of which only the beginning is left.
pub open spec fn same_but_shorter(msgs: Seq<MsgV>, cut: Seq<MsgV>) -> bool {
    &&& cut.len() == msgs.len()
    &&& forall|i: int|
        0 <= i < msgs.len() ==> (#[trigger] cut[i]) == msgs[i] || (msgs[i].role == "tool"@ && cut[i]
            == shortened(msgs[i]))
}

proof fn lemma_shortened_from(msgs: Seq<MsgV>, now: Seq<MsgV>, budget: nat, i: int)
    requires
        0 <= i,
        same_but_shorter(msgs, now),
        forall|k: int| i <= k < msgs.len() ==> (#[trigger] now[k]) == msgs[k],
    ensures
        same_but_shorter(msgs, shortened_from(now, budget, i)),
    decreases msgs.len() - i,
{
    if history(now) > budget && i < now.len() {
        if now[i].role == "tool"@ {
            lemma_shortened_from(msgs, now.update(i, shortened(now[i])), budget, i + 1);
        } else {
            lemma_shortened_from(msgs, now, budget, i + 1);
        }
    }
}

proof fn lemma_shortened_paired(msgs: Seq<MsgV>, cut: Seq<MsgV>, k: int)
    requires
        paired(msgs, k),
        same_but_shorter(msgs, cut),
    ensures
        paired(cut, k),
        cut.take(k) == msgs.take(k),
{
    assert forall|i: int| 0 <= i < k implies (#[trigger] cut[i]).role == "system"@ && cut[i]
        == msgs[i] by {
        assert(msgs[i].role == "system"@);
        lemma_roles_differ();
    }
    assert(cut.take(k) =~= msgs.take(k));
    assert forall|i: int| k <= i < cut.len() implies #[trigger] in_place(cut, k, i) by {
        assert(in_place(msgs, k, i));
        assert(cut[i].role == msgs[i].role);
        if i > k {
            assert(cut[i - 1].role == msgs[i - 1].role);
            assert(cut[i - 1].tool_calls == msgs[i - 1].tool_calls);
        }
    }
}

proof fn lemma_roles_differ()
    ensures
        "system"@ != "tool"@,
{
    reveal_strlit("system");
    reveal_strlit("tool");
    assert("system"@.len() != "tool"@.len());
}

/// Trimming keeps the system's messages and the latest of the others: what goes is a run
/// of the oldest, and it goes whole, so that tool results stay with their calls and calls
/// with their results. What stays is as it was, but for tool results that were cut
/// short. After at most two messages of the system, the latest message stays unless it
/// is a tool result. What is left is within the budget, or no more than three messages,
/// or those of the system alone.
pub proof fn law_trimming_drops_the_oldest(msgs: Seq<MsgV>, k: int, budget: nat) -> (r: (
    Seq<MsgV>,
    int,
))
    requires
        paired(msgs, k),
    ensures
        same_but_shorter(msgs, r.0),
        k <= r.1 <= msgs.len(),
        trimmed_history(msgs, budget) == msgs.take(k) + r.0.skip(r.1),
        paired(trimmed_history(msgs, budget), k),
        history(msgs) <= budget ==> trimmed_history(msgs, budget) == msgs,
        history(trimmed_history(msgs, budget)) <= budget || trimmed_history(msgs, budget).len() <= 3
            || trimmed_history(msgs, budget) == msgs.take(k),
        k <= 2 && k < msgs.len() && msgs.last().role != "tool"@ ==> r.1 < msgs.len(),
{
    if history(msgs) <= budget || msgs.len() <= 3 {
        assert(msgs.take(k) + msgs.skip(k) =~= msgs);
        (msgs, k)
    } else {
        let cut = shortened_from(msgs, budget, 0);
        lemma_shortened_from(msgs, msgs, budget, 0);
        lemma_shortened_paired(msgs, cut, k);
        let j = lemma_without_oldest(cut, k, budget);
        assert(cut.last() == cut[msgs.len() - 1]);
        assert(cut.last().role == msgs.last().role);
        (cut, j)
    }
}

/// The history with all its tool results from `i` on shortened.
pub open spec fn all_shortened(msgs: Seq<MsgV>, i: int) -> Seq<MsgV> {
    Seq::new(
        msgs.len(),
        |k: int|
            if k >= i && msgs[k].role == "tool"@ {
                shortened(msgs[k])
            } else {
                msgs[k]
            },
    )
}

proof fn lemma_all_shortened(msgs: Seq<MsgV>, budget: nat, i: int)
    requires
        0 <= i,
        history(all_shortened(msgs, i)) <= budget,
    ensures
        history(shortened_from(msgs, budget, i)) <= budget,
    decreases msgs.len() - i,
{
    if history(msgs) > budget {
        if i >= msgs.len() {
            assert(all_shortened(msgs, i) =~= msgs);
        } else if msgs[i].role == "tool"@ {
            let next = msgs.update(i, shortened(msgs[i]));
            assert(all_shortened(next, i + 1) =~= all_shortened(msgs, i));
            lemma_all_shortened(next, budget, i + 1);
        } else {
            assert(all_shortened(msgs, i + 1) =~= all_shortened(msgs, i));
            lemma_all_shortened(msgs, budget, i + 1);
        }
    }
}

/// Tool results are shortened before anything is dropped: where shortening all of them
/// brings the history within the budget, every message stays and the history fits.
pub proof fn law_results_are_shortened_first(msgs: Seq<MsgV>, budget: nat)
    requires
        msgs.len() > 3,
        history(all_shortened(msgs, 0)) <= budget,
    ensures
        same_but_shorter(msgs, trimmed_history(msgs, budget)),
        history(trimmed_history(msgs, budget)) <= budget,
{
    lemma_shortened_from(msgs, msgs, budget, 0);
    lemma_all_shortened(msgs, budget, 0);
}

/// The names of the conversations differ.
pub open spec fn distinct(s: Seq<SessionV>) -> bool {
    forall|i: int, j: int| 0 <= i < j < s.len() ==> (#[trigger] s[i]).id != (#[trigger] s[j]).id
}

proof fn lemma_other(s: Seq<SessionV>, a: Seq<char>, b: Seq<char>, i: int)
    requires
        0 <= i <= s.len(),
    ensures
        i <= other_from(s, a, b, i) <= s.len(),
        other_from(s, a, b, i) < s.len() ==> s[other_from(s, a, b, i)].id != a && s[other_from(
            s,
            a,
            b,
            i,
        )].id != b,
        forall|k: int| i <= k < other_from(s, a, b, i) ==> (#[trigger] s[k]).id == a || s[k].id == b,
    decreases s.len() - i,
{
    if i < s.len() && (s[i].id == a || s[i].id == b) {
        lemma_other(s, a, b, i + 1);
    }
}

proof fn lemma_found(s: Seq<SessionV>, id: Seq<char>, k: int)
    requires
        0 <= k < s.len(),
        s[k].id == id,
    ensures
        find(s, id) < s.len(),
{
    lemma_find_bound(s, id, 0);
}

/// After `activated` there is an active conversation, and it is found.
pub proof fn lemma_activated(s: StoreV, stamp: Stamp)
    ensures
        ({
            let t = activated(s, stamp);
            0 <= find(t.sessions, t.active) < t.sessions.len()
        }),
{
    let t = activated(s, stamp);
    lemma_find_bound(t.sessions, t.active, 0);
    if !has_active(s) {
        let new = fresh_session("新会话"@, stamp, s.seq + 1);
        let full = s.sessions.push(new);
        lemma_other(full, s.active, new.id, 0);
        assert(full[full.len() - 1].id == new.id);
        assert(t.sessions.last() == new);
        lemma_found(t.sessions, t.active, t.sessions.len() - 1);
    }
}

/// A new conversation is the last one and the active one; the one that was active
/// stays; and their number does not grow past the limit.
pub proof fn law_new_session_is_active(s: StoreV, title: Seq<char>, stamp: Stamp)
    requires
        s.seq < u64::MAX,
        distinct(s.sessions),
    ensures
        ({
            let t = opened(s, title, stamp);
            &&& t.sessions.len() > 0
            &&& t.sessions.last() == fresh_session(title, stamp, s.seq + 1)
            &&& t.sessions.last().id == t.active
            &&& find(t.sessions, t.active) < t.sessions.len()
            &&& find(s.sessions, s.active) < s.sessions.len() ==> find(t.sessions, s.active)
                < t.sessions.len()
            &&& s.sessions.len() <= MAX_SESSIONS ==> t.sessions.len() <= MAX_SESSIONS
        }),
{
    let id = session_id(stamp.millis, s.seq + 1);
    let new = fresh_session(title, stamp, s.seq + 1);
    let full = s.sessions.push(new);
    let t = opened(s, title, stamp);
    lemma_other(full, s.active, id, 0);
    lemma_find_bound(s.sessions, s.active, 0);
    let k = find(s.sessions, s.active);
    let i = other_from(full, s.active, id, 0);
    if full.len() > MAX_SESSIONS {
        if i < full.len() {
            assert(full[full.len() - 1].id == id);
            assert(t.sessions == full.remove(i));
            if k < s.sessions.len() {
                assert(full[k].id == s.active);
                if k < i {
                    assert(t.sessions[k] == full[k]);
                    lemma_found(t.sessions, s.active, k);
                } else {
                    assert(t.sessions[k - 1] == full[k]);
                    lemma_found(t.sessions, s.active, k - 1);
                }
            }
        } else {
            // two names cannot name more than two conversations
            assert(full[0].id == s.active || full[0].id == id);
            assert(full[1].id == s.active || full[1].id == id);
            assert(full[2].id == s.active || full[2].id == id);
            assert(full[0] == s.sessions[0] && full[1] == s.sessions[1] && full[2] == s.sessions[2]);
            assert(false);
        }
    } else if k < s.sessions.len() {
        assert(t.sessions[k] == s.sessions[k]);
        lemma_found(t.sessions, s.active, k);
    }
    assert(t.sessions.last() == new);
    lemma_found(t.sessions, t.active, t.sessions.len() - 1);
}

proof fn lemma_kept(s: Seq<SessionV>, id: Seq<char>)
    ensures
        forall|i: int| 0 <= i < kept(s, id).len() ==> (#[trigger] kept(s, id)[i]).id != id,
        forall|i: int|
            0 <= i < kept(s, id).len() ==> s.contains(#[trigger] kept(s, id)[i]),
        forall|i: int| 0 <= i < s.len() && (#[trigger] s[i]).id != id ==> kept(s, id).contains(s[i]),
    decreases s.len(),
{
    if s.len() > 0 {
        let r = s.skip(1);
        let k = kept(r, id);
        lemma_kept(r, id);
        let all = kept(s, id);
        if s[0].id != id {
            assert(all == seq![s[0]] + k);
            assert forall|i: int| 0 <= i < all.len() implies (#[trigger] all[i]).id != id && s.contains(
                all[i],
            ) by {
                if i > 0 {
                    assert(all[i] == k[i - 1]);
                    let m = choose|m: int| 0 <= m < r.len() && r[m] == k[i - 1];
                    assert(s[m + 1] == all[i]);
                }
            }
            assert forall|i: int| 0 <= i < s.len() && (#[trigger] s[i]).id != id implies all.contains(
                s[i],
            ) by {
                if i > 0 {
                    assert(r[i - 1] == s[i]);
                    let m = choose|m: int| 0 <= m < k.len() && k[m] == s[i];
                    assert(all[m + 1] == s[i]);
                } else {
                    assert(all[0] == s[0]);
                }
            }
        } else {
            assert forall|i: int| 0 <= i < all.len() implies s.contains(#[trigger] all[i]) by {
                let m = choose|m: int| 0 <= m < r.len() && r[m] == k[i];
                assert(s[m + 1] == all[i]);
            }
            assert forall|i: int| 0 <= i < s.len() && (#[trigger] s[i]).id != id implies all.contains(
                s[i],
            ) by {
                assert(r[i - 1] == s[i]);
            }
        }
    }
}

/// A deleted conversation is gone and every other one is left; where one was active
/// and any is left, one is active.
pub proof fn law_delete_leaves_the_others(s: StoreV, id: Seq<char>, other: Seq<char>)
    requires
        other != id,
    ensures
        ({
            let t = deleted(s, id);
            &&& find(t.sessions, id) == t.sessions.len()
            &&& find(s.sessions, other) < s.sessions.len() <==> find(t.sessions, other)
                < t.sessions.len()
            &&& find(s.sessions, s.active) < s.sessions.len() && t.sessions.len() > 0 ==> find(
                t.sessions,
                t.active,
            ) < t.sessions.len()
        }),
{
    let t = deleted(s, id);
    lemma_kept(s.sessions, id);
    lemma_find_bound(t.sessions, id, 0);
    lemma_find_bound(t.sessions, other, 0);
    lemma_find_bound(s.sessions, other, 0);
    lemma_find_bound(s.sessions, s.active, 0);
    let k = find(s.sessions, other);
    if k < s.sessions.len() {
        let m = choose|m: int| 0 <= m < t.sessions.len() && t.sessions[m] == s.sessions[k];
        assert(t.sessions.contains(s.sessions[k]));
        lemma_found(t.sessions, other, m);
    }
    let n = find(t.sessions, other);
    if n < t.sessions.len() {
        let m = choose|m: int| 0 <= m < s.sessions.len() && s.sessions[m] == t.sessions[n];
        assert(s.sessions.contains(t.sessions[n]));
        lemma_found(s.sessions, other, m);
    }
    if t.sessions.len() > 0 {
        if s.active == id {
            lemma_found(t.sessions, t.active, t.sessions.len() - 1);
        } else if find(s.sessions, s.active) < s.sessions.len() {
            let a = find(s.sessions, s.active);
            let m = choose|m: int| 0 <= m < t.sessions.len() && t.sessions[m] == s.sessions[a];
            assert(t.sessions.contains(s.sessions[a]));
            lemma_found(t.sessions, s.active, m);
        }
    }
}

proof fn lemma_set_from(
    fields: Seq<(Seq<char>, json::Tree)>,
    key: Seq<char>,
    v: json::Tree,
    other: Seq<char>,
    i: int,
)
    requires
        0 <= i <= fields.len(),
        forall|k: int| 0 <= k < i ==> (#[trigger] fields[k]).0 != key,
    ensures
        json::field_from(fields, key, i) is Some ==> json::field_from(
            set_from(fields, key, v, i),
            key,
            0,
        ) == Some(v),
        other != key ==> json::field_from(set_from(fields, key, v, i), other, 0)
            == json::field_from(fields, other, 0),
    decreases fields.len() - i,
{
    if i < fields.len() && fields[i].0 == key {
        lemma_field_at(set_from(fields, key, v, i), key, 0, i);
        lemma_field_update(fields, i, (key, v), other, 0);
    } else if i < fields.len() {
        lemma_set_from(fields, key, v, other, i + 1);
    }
}

proof fn lemma_field_at(fields: Seq<(Seq<char>, json::Tree)>, key: Seq<char>, i: int, k: int)
    requires
        0 <= i <= k < fields.len(),
        fields[k].0 == key,
        forall|m: int| i <= m < k ==> (#[trigger] fields[m]).0 != key,
    ensures
        json::field_from(fields, key, i) == Some(fields[k].1),
    decreases k - i,
{
    if i < k {
        assert(fields[i].0 != key);
        lemma_field_at(fields, key, i + 1, k);
    }
}

proof fn lemma_field_update(
    fields: Seq<(Seq<char>, json::Tree)>,
    k: int,
    f: (Seq<char>, json::Tree),
    other: Seq<char>,
    i: int,
)
    requires
        0 <= i,
        0 <= k < fields.len(),
        fields[k].0 == f.0,
    ensures
        other != f.0 ==> json::field_from(fields.update(k, f), other, i) == json::field_from(
            fields,
            other,
            i,
        ),
    decreases fields.len() - i,
{
    if i < fields.len() {
        lemma_field_update(fields, k, f, other, i + 1);
    }
}

/// What is stored of too large a store still holds the active conversation, and all
/// that stands beside the conversations.
pub proof fn law_saving_keeps_the_active(v: json::Tree, active: Seq<char>, n: nat, x: json::Tree)
    requires
        json::str_of(json::field(x, "id"@)) == Some(active),
        json::elements_of(json::field(v, "sessions"@)).contains(x),
    ensures
        json::elements_of(json::field(shrunk(v, active, n), "sessions"@)).contains(x),
        forall|key: Seq<char>|
            key != "sessions"@ ==> #[trigger] json::field(shrunk(v, active, n), key) == json::field(
                v,
                key,
            ),
    decreases n,
{
    if n > 0 {
        if let Some(w) = shrunk_once(v, active) {
            let items = json::elements_of(json::field(v, "sessions"@));
            let i = stored_other(items, active, 0);
            lemma_stored_other(items, active, 0);
            let left = items.remove(i);
            let k = choose|k: int| 0 <= k < items.len() && items[k] == x;
            if k < i {
                assert(left[k] == x);
            } else {
                assert(left[k - 1] == x);
            }
            let fields = v->Obj_0;
            lemma_set_from(fields, "sessions"@, json::Tree::Arr(left), Seq::empty(), 0);
            assert forall|key: Seq<char>| key != "sessions"@ implies #[trigger] json::field(w, key)
                == json::field(v, key) by {
                lemma_set_from(fields, "sessions"@, json::Tree::Arr(left), key, 0);
            }
            law_saving_keeps_the_active(w, active, (n - 1) as nat, x);
        }
    }
}

/// What is stored is small, unless what is left is the active conversation alone.
pub proof fn law_what_is_stored_is_small(v: json::Tree, active: Seq<char>, n: nat)
    requires
        json::elements_of(json::field(v, "sessions"@)).len() <= n + 1,
    ensures
        ({
            let r = shrunk(v, active, n);
            let left = json::elements_of(json::field(r, "sessions"@));
            byte_len(json::json_text(r)) < MAX_BYTES || left.len() <= 1 || forall|k: int|
                0 <= k < left.len() ==> json::str_of(json::field(#[trigger] left[k], "id"@)) == Some(
                    active,
                )
        }),
    decreases n,
{
    let items = json::elements_of(json::field(v, "sessions"@));
    lemma_stored_other(items, active, 0);
    if n > 0 {
        if let Some(w) = shrunk_once(v, active) {
            let left = items.remove(stored_other(items, active, 0));
            lemma_set_from(v->Obj_0, "sessions"@, json::Tree::Arr(left), Seq::empty(), 0);
            law_what_is_stored_is_small(w, active, (n - 1) as nat);
        }
    }
}

proof fn lemma_stored_other(items: Seq<json::Tree>, active: Seq<char>, i: int)
    requires
        0 <= i <= items.len(),
    ensures
        i <= stored_other(items, active, i) <= items.len(),
        stored_other(items, active, i) < items.len() ==> json::str_of(
            json::field(items[stored_other(items, active, i)], "id"@),
        ) != Some(active),
        forall|k: int|
            i <= k < stored_other(items, active, i) ==> json::str_of(
                json::field(#[trigger] items[k], "id"@),
            ) == Some(active),
    decreases items.len() - i,
{
    if i < items.len() && json::str_of(json::field(items[i], "id"@)) == Some(active) {
        lemma_stored_other(items, active, i + 1);
    }
}

} // verus!
