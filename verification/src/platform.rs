//! Platform features: the session history, the response language,
//! onboarding, offline mode and the issue tracker connection.
use vstd::prelude::*;

use std::collections::VecDeque;

use crate::text::{
    contains, decimal, decimal_string, lowercase, push_str, str_contains, str_eq, str_to_lowercase,
    to_owned, views,
};

verus! {

/// A message of a past session; its time is in milliseconds since the
/// Unix epoch.
#[derive(Debug, Clone)]
pub struct SessionMessage {
    pub role: String,
    pub content: String,
    pub timestamp: i64,
}

/// A past session; its start time is in milliseconds since the Unix
/// epoch.
#[derive(Debug, Clone)]
pub struct SessionRecord {
    pub id: String,
    pub timestamp: i64,
    pub messages: Vec<SessionMessage>,
    pub stack: Option<String>,
    pub files_touched: Vec<String>,
    pub duration_secs: u64,
}

/// Whether a text contains a lower-cased query once lower-cased itself.
pub open spec fn mentions(text: Seq<char>, q: Seq<char>) -> bool {
    contains(lowercase(text), q)
}

/// Whether a session mentions a lower-cased query in one of its messages,
/// its stack or one of the files it touched.
pub open spec fn session_matches(s: SessionRecord, q: Seq<char>) -> bool {
    ||| exists|i: int| 0 <= i < s.messages@.len() && mentions(#[trigger] s.messages@[i].content@, q)
    ||| (s.stack matches Some(st) && mentions(st@, q))
    ||| exists|i: int| 0 <= i < s.files_touched@.len() && mentions(#[trigger] s.files_touched@[i]@, q)
}

/// The sessions that mention a lower-cased query, in order.
pub open spec fn matching(ss: Seq<SessionRecord>, q: Seq<char>) -> Seq<SessionRecord>
    decreases ss.len(),
{
    if ss.len() == 0 {
        seq![]
    } else if session_matches(ss.last(), q) {
        matching(ss.drop_last(), q).push(ss.last())
    } else {
        matching(ss.drop_last(), q)
    }
}

/// After a session is added, the history holds no more than its limit;
/// unless the limit is zero, the new session comes first and the others
/// follow in the order they had.
pub proof fn lemma_add_keeps_limit(old: Seq<SessionRecord>, s: SessionRecord, limit: nat)
    ensures
        ({
            let after = (seq![s] + old).take(vstd::math::min(limit as int, (old.len() + 1) as int));
            &&& after.len() <= limit
            &&& limit > 0 ==> after[0] == s
            &&& forall|i: int| 1 <= i < after.len() ==> after[i] == old[i - 1]
        }),
{
}

/// Whether a text mentions a lower-cased query.
fn mentions_exec(text: &str, q: &str) -> (r: bool)
    ensures
        r == mentions(text@, q@),
{
    let t = str_to_lowercase(text);
    str_contains(t.as_str(), q)
}

/// Whether a session mentions a lower-cased query.
fn session_matches_exec(s: &SessionRecord, q: &str) -> (r: bool)
    ensures
        r == session_matches(*s, q@),
{
    let mut i: usize = 0;
    while i < s.messages.len()
        invariant
            i <= s.messages@.len(),
            forall|j: int| 0 <= j < i ==> !mentions(#[trigger] s.messages@[j].content@, q@),
        decreases s.messages.len() - i,
    {
        if mentions_exec(s.messages[i].content.as_str(), q) {
            return true;
        }
        i += 1;
    }
    match &s.stack {
        Some(st) => {
            if mentions_exec(st.as_str(), q) {
                return true;
            }
        },
        None => {},
    }
    let mut k: usize = 0;
    while k < s.files_touched.len()
        invariant
            k <= s.files_touched@.len(),
            forall|j: int| 0 <= j < k ==> !mentions(#[trigger] s.files_touched@[j]@, q@),
        decreases s.files_touched.len() - k,
    {
        if mentions_exec(s.files_touched[k].as_str(), q) {
            return true;
        }
        k += 1;
    }
    false
}

/// The most recent sessions, newest first, up to a limit.
pub struct SessionHistory {
    sessions: VecDeque<SessionRecord>,
    max_sessions: usize,
}

impl View for SessionHistory {
    type V = Seq<SessionRecord>;

    closed spec fn view(&self) -> Seq<SessionRecord> {
        self.sessions@
    }
}

impl SessionHistory {
    /// How many sessions are kept.
    pub closed spec fn limit(&self) -> nat {
        self.max_sessions as nat
    }

    /// An empty history keeping a hundred sessions.
    pub fn new() -> (r: Self)
        ensures
            r@ == Seq::<SessionRecord>::empty(),
            r.limit() == 100,
    {
        SessionHistory { sessions: VecDeque::new(), max_sessions: 100 }
    }

    /// A history holding sessions read back from storage, as they were
    /// stored.
    pub fn from_records(sessions: VecDeque<SessionRecord>) -> (r: Self)
        ensures
            r@ == sessions@,
            r.limit() == 100,
    {
        SessionHistory { sessions, max_sessions: 100 }
    }

    /// Record a session as the newest; the oldest ones beyond the limit
    /// are dropped.
    pub fn add(&mut self, s: SessionRecord)
        ensures
            final(self)@ == (seq![s] + old(self)@).take(
                vstd::math::min(old(self).limit() as int, (old(self)@.len() + 1) as int),
            ),
            final(self).limit() == old(self).limit(),
    {
        let ghost all = seq![s] + self.sessions@;
        self.sessions.push_front(s);
        while self.sessions.len() > self.max_sessions
            invariant
                self.max_sessions == old(self).max_sessions,
                all == seq![s] + old(self).sessions@,
                self.sessions@.len() <= all.len(),
                self.sessions@ == all.take(self.sessions@.len() as int),
                vstd::math::min(self.max_sessions as int, all.len() as int) <= self.sessions@.len(),
            decreases self.sessions@.len(),
        {
            let _ = self.sessions.pop_back();
        }
    }

    /// The sessions that mention a query, compared in lower case, newest
    /// first.
    pub fn search(&self, q: &str) -> (r: Vec<&SessionRecord>)
        ensures
            r@.map_values(|x: &SessionRecord| *x) == matching(self@, lowercase(q@)),
    {
        let ql = str_to_lowercase(q);
        let mut out: Vec<&SessionRecord> = Vec::new();
        let mut i: usize = 0;
        while i < self.sessions.len()
            invariant
                i <= self.sessions@.len(),
                out@.map_values(|x: &SessionRecord| *x) == matching(
                    self.sessions@.take(i as int),
                    ql@,
                ),
                ql@ == lowercase(q@),
            decreases self.sessions.len() - i,
        {
            proof {
                assert(self.sessions@.take(i + 1).drop_last() =~= self.sessions@.take(i as int));
                assert(self.sessions@.take(i + 1).last() == self.sessions@[i as int]);
            }
            let rec = &self.sessions[i];
            if session_matches_exec(rec, ql.as_str()) {
                out.push(rec);
                assert(out@.map_values(|x: &SessionRecord| *x) =~= matching(
                    self.sessions@.take(i as int),
                    ql@,
                ).push(*rec));
            }
            i += 1;
        }
        assert(self.sessions@.take(i as int) =~= self.sessions@);
        out
    }

    /// How many sessions are kept.
    pub fn len(&self) -> (r: usize)
        ensures
            r == self@.len(),
    {
        self.sessions.len()
    }

    /// The sessions, newest first, as they are stored.
    pub fn records(&self) -> (r: &VecDeque<SessionRecord>)
        ensures
            r@ == self@,
    {
        &self.sessions
    }
}


/// The language of prose responses.
#[derive(Debug, Clone, Copy, PartialEq, Eq, Structural)]
pub enum ResponseLanguage {
    English,
    Banglish,
    Bengali,
}

/// The text for a message key in a language: the welcome message is
/// translated for Banglish and Bengali; any other key, and English, give
/// the key itself.
pub open spec fn translation(lang: ResponseLanguage, key: Seq<char>) -> Seq<char> {
    if lang == ResponseLanguage::Banglish && key == "welcome"@ {
        "👋 Welcome! Ami KontroCode. Ki korbo bolen?"@
    } else if lang == ResponseLanguage::Bengali && key == "welcome"@ {
        "👋 স্বাগতম! আমি KontroCode। কী করবো বলুন?"@
    } else {
        key
    }
}

/// The onboarding messages after `count` learning signals: the welcome,
/// then the learning progress out of five, or that the profile is ready.
pub open spec fn onboarding(lang: ResponseLanguage, count: nat) -> Seq<Seq<char>> {
    seq![
        translation(lang, "welcome"@),
        if count < 5 {
            "🔄 Learning... "@ + decimal(count + 1) + " / 5"@
        } else {
            "✅ Full profile ready!"@
        },
    ]
}

impl ResponseLanguage {
    /// The text for a message key.
    pub fn translate(&self, key: &str) -> (r: String)
        ensures
            r@ == translation(*self, key@),
    {
        if str_eq(key, "welcome") {
            match self {
                ResponseLanguage::Banglish => {
                    return to_owned("👋 Welcome! Ami KontroCode. Ki korbo bolen?");
                },
                ResponseLanguage::Bengali => {
                    return to_owned("👋 স্বাগতম! আমি KontroCode। কী করবো বলুন?");
                },
                ResponseLanguage::English => {},
            }
        }
        to_owned(key)
    }
}

/// The onboarding flow.
pub struct Onboarding;

impl Onboarding {
    /// The onboarding messages after `count` learning signals.
    pub fn flow(lang: ResponseLanguage, count: usize) -> (r: Vec<String>)
        ensures
            views(r@) == onboarding(lang, count as nat),
    {
        let mut msgs: Vec<String> = Vec::new();
        msgs.push(lang.translate("welcome"));
        if count < 5 {
            let mut m = to_owned("🔄 Learning... ");
            let d = decimal_string(count as u128 + 1);
            push_str(&mut m, d.as_str());
            push_str(&mut m, " / 5");
            msgs.push(m);
        } else {
            msgs.push(to_owned("✅ Full profile ready!"));
        }
        assert(views(msgs@) =~= onboarding(lang, count as nat));
        msgs
    }
}

/// Whether a local model is available to work offline.
pub struct OfflineMode {
    pub local_model: bool,
}

impl OfflineMode {
    /// Whether the agent can work offline: only with a local model.
    pub fn can_work(&self) -> (r: bool)
        ensures
            r == self.local_model,
    {
        self.local_model
    }
}

/// The issue tracker connection: configured when its address and token
/// are both set.
pub struct JiraClient {
    pub configured: bool,
}

} // verus!
