//! Memory signals: the kinds of implicit signal, when two remembered
//! facts contradict each other, and which topic a compile error is about.
use vstd::prelude::*;

use crate::mcp::{find_id, lemma_position_of, position_of};
use crate::profile::{language_named, parse_language, FactSource, Language};

use crate::text::{
    contains, lemma_split_len, lowercase, split, split_whitespace_exec, str_contains, str_eq,
    str_split, str_to_lowercase, str_trim, to_owned, trim, views, push_str, ws_words,
};

verus! {

/// The kind of signal observed.
#[derive(Debug, Clone, Copy, PartialEq, Eq, Structural)]
pub enum SignalKind {
    /// A code block was copied. Strong positive for the topic.
    CodeBlockCopied,
    /// The agent's output was heavily edited. Negative.
    HeavyEdit,
    /// A regeneration was asked for. Strong negative.
    RegenerateRequest,
    /// A follow-up question.
    FollowUp,
    /// A long dwell on a response. Strong engagement.
    LongDwell,
    /// A suggested library was replaced.
    LibraryReplaced,
    /// A stack or library was named. Highest confidence.
    ExplicitStackMention,
    /// The same error appeared twice.
    RecurringError,
    /// A sample of the user's language.
    LanguageSample,
    /// A session started or ended.
    SessionBoundary,
}

/// Whether two lower-cased texts both use a keyword and say different
/// things after its last use.
pub open spec fn keyword_conflict(a: Seq<char>, b: Seq<char>, kw: Seq<char>) -> bool {
    &&& contains(a, kw)
    &&& contains(b, kw)
    &&& trim(split(a, kw).last()) != trim(split(b, kw).last())
}

/// Whether two lower-cased texts conflict on one of the preference
/// keywords `prefer`, `use`, `dislike`, `avoid`, `reject`.
pub open spec fn texts_conflict(a: Seq<char>, b: Seq<char>) -> bool {
    ||| keyword_conflict(a, b, "prefer"@)
    ||| keyword_conflict(a, b, "use"@)
    ||| keyword_conflict(a, b, "dislike"@)
    ||| keyword_conflict(a, b, "avoid"@)
    ||| keyword_conflict(a, b, "reject"@)
}

/// Two lower-cased texts conflict exactly when they share one of the
/// preference keywords `prefer`, `use`, `dislike`, `avoid`, `reject` and
/// say different things (trimmed) after its last use in each.
pub proof fn lemma_conflict_on_shared_keyword(a: Seq<char>, b: Seq<char>, kw: Seq<char>)
    ensures
        (kw == "prefer"@ || kw == "use"@ || kw == "dislike"@ || kw == "avoid"@ || kw == "reject"@)
            && contains(a, kw) && contains(b, kw) && trim(split(a, kw).last()) != trim(split(b, kw).last())
            ==> texts_conflict(a, b),
        texts_conflict(a, b) ==> exists|k: Seq<char>|
            (k == "prefer"@ || k == "use"@ || k == "dislike"@ || k == "avoid"@ || k == "reject"@)
                && contains(a, k) && contains(b, k) && #[trigger] trim(split(a, k).last()) != trim(
                split(b, k).last(),
            ),
{
    if texts_conflict(a, b) {
        if keyword_conflict(a, b, "prefer"@) {
            assert(trim(split(a, "prefer"@).last()) != trim(split(b, "prefer"@).last()));
        } else if keyword_conflict(a, b, "use"@) {
            assert(trim(split(a, "use"@).last()) != trim(split(b, "use"@).last()));
        } else if keyword_conflict(a, b, "dislike"@) {
            assert(trim(split(a, "dislike"@).last()) != trim(split(b, "dislike"@).last()));
        } else if keyword_conflict(a, b, "avoid"@) {
            assert(trim(split(a, "avoid"@).last()) != trim(split(b, "avoid"@).last()));
        } else {
            assert(trim(split(a, "reject"@).last()) != trim(split(b, "reject"@).last()));
        }
    }
}

/// The topic a compile error is about.
pub open spec fn error_topic(e: Seq<char>) -> Seq<char> {
    if contains(e, "flutter"@) {
        "Flutter"@
    } else if contains(e, "async"@) || contains(e, "tokio"@) {
        "Rust-Async"@
    } else if contains(e, "react"@) {
        "React"@
    } else {
        "Unknown"@
    }
}

/// What follows the last use of a keyword, trimmed.
fn after_last(s: &str, kw: &str) -> (r: String)
    requires
        kw@.len() > 0,
    ensures
        r@ == trim(split(s@, kw@).last()),
{
    let parts = str_split(s, kw);
    proof {
        lemma_split_len(s@, kw@);
    }
    let n = parts.len();
    assert(views(parts@)[n - 1] == parts@[n - 1]@);
    str_trim(parts[n - 1].as_str())
}

/// Whether two lower-cased texts conflict on a keyword.
fn keyword_conflict_exec(a: &str, b: &str, kw: &str) -> (r: bool)
    requires
        kw@.len() > 0,
    ensures
        r == keyword_conflict(a@, b@, kw@),
{
    if str_contains(a, kw) && str_contains(b, kw) {
        let ra = after_last(a, kw);
        let rb = after_last(b, kw);
        !str_eq(ra.as_str(), rb.as_str())
    } else {
        false
    }
}

/// Whether two lower-cased facts contradict each other: both use one of
/// the preference keywords and say different things after it.
pub fn lowered_texts_conflict(a: &str, b: &str) -> (r: bool)
    ensures
        r == texts_conflict(a@, b@),
{
    proof {
        reveal_strlit("prefer");
        reveal_strlit("use");
        reveal_strlit("dislike");
        reveal_strlit("avoid");
        reveal_strlit("reject");
    }
    keyword_conflict_exec(a, b, "prefer") || keyword_conflict_exec(a, b, "use")
        || keyword_conflict_exec(a, b, "dislike") || keyword_conflict_exec(a, b, "avoid")
        || keyword_conflict_exec(a, b, "reject")
}

/// Whether two facts contradict each other, compared in lower case.
pub fn text_conflicts(a: &str, b: &str) -> (r: bool)
    ensures
        r == texts_conflict(lowercase(a@), lowercase(b@)),
{
    let al = str_to_lowercase(a);
    let bl = str_to_lowercase(b);
    lowered_texts_conflict(al.as_str(), bl.as_str())
}

/// The topic a compile error is about: Flutter, async Rust, React, or
/// unknown.
pub fn extract_topic_from_error(error: &str) -> (r: String)
    ensures
        r@ == error_topic(error@),
{
    if str_contains(error, "flutter") {
        to_owned("Flutter")
    } else if str_contains(error, "async") || str_contains(error, "tokio") {
        to_owned("Rust-Async")
    } else if str_contains(error, "react") {
        to_owned("React")
    } else {
        to_owned("Unknown")
    }
}

/// A fact learned from a signal, before it gets an id and a time: its
/// text, its confidence in percent, and where it came from.
#[derive(Debug, Clone)]
pub struct FactDraft {
    pub text: String,
    pub confidence_pct: u8,
    pub source: FactSource,
}

/// The fact a signal teaches, given its topic and the `replacement` and
/// `error` entries of its metadata: copied code shows interest in the
/// topic, a replaced library a preference, a named stack its use, a
/// recurring error a weak spot; other signals teach nothing.
pub open spec fn signal_fact_of(
    kind: SignalKind,
    topic: Option<Seq<char>>,
    replacement: Option<Seq<char>>,
    error: Option<Seq<char>>,
) -> Option<(Seq<char>, u8, FactSource)> {
    match kind {
        SignalKind::CodeBlockCopied => match topic {
            Some(t) => Some(("copies code about "@ + t, 70u8, FactSource::Implicit)),
            None => None,
        },
        SignalKind::LibraryReplaced => match replacement {
            Some(l) => Some(("prefers "@ + l, 85u8, FactSource::Implicit)),
            None => None,
        },
        SignalKind::ExplicitStackMention => match topic {
            Some(t) => Some(("uses "@ + t, 95u8, FactSource::Explicit)),
            None => None,
        },
        SignalKind::RecurringError => match error {
            Some(e) => Some(("frequently encounters: "@ + e, 60u8, FactSource::Implicit)),
            None => None,
        },
        _ => None,
    }
}

/// A fact draft with the given text after a prefix.
fn draft(prefix: &str, rest: &str, pct: u8, source: FactSource) -> (d: FactDraft)
    ensures
        d.text@ == prefix@ + rest@,
        d.confidence_pct == pct,
        d.source == source,
{
    let mut text = to_owned(prefix);
    push_str(&mut text, rest);
    FactDraft { text, confidence_pct: pct, source }
}

/// The fact a signal teaches, if any.
pub fn extract_fact_from_signal(
    kind: SignalKind,
    topic: Option<&str>,
    replacement: Option<&str>,
    error: Option<&str>,
) -> (r: Option<FactDraft>)
    ensures
        match signal_fact_of(
            kind,
            match topic {
                Some(t) => Some(t@),
                None => None,
            },
            match replacement {
                Some(t) => Some(t@),
                None => None,
            },
            match error {
                Some(t) => Some(t@),
                None => None,
            },
        ) {
            Some(f) => r matches Some(d) && d.text@ == f.0 && d.confidence_pct == f.1 && d.source == f.2,
            None => r is None,
        },
{
    match kind {
        SignalKind::CodeBlockCopied => match topic {
            Some(t) => Some(draft("copies code about ", t, 70, FactSource::Implicit)),
            None => None,
        },
        SignalKind::LibraryReplaced => match replacement {
            Some(l) => Some(draft("prefers ", l, 85, FactSource::Implicit)),
            None => None,
        },
        SignalKind::ExplicitStackMention => match topic {
            Some(t) => Some(draft("uses ", t, 95, FactSource::Explicit)),
            None => None,
        },
        SignalKind::RecurringError => match error {
            Some(e) => Some(draft("frequently encounters: ", e, 60, FactSource::Implicit)),
            None => None,
        },
        _ => None,
    }
}


/// What a contradiction check reads of a remembered fact.
#[derive(Debug, Clone)]
pub struct FactClaim {
    pub source: FactSource,
    pub text: String,
}

/// Whether a new text contradicts a remembered fact: the fact was
/// detected from behavior and the two conflict, compared in lower case.
pub open spec fn contradicts(new_text: Seq<char>, c: FactClaim) -> bool {
    &&& c.source == FactSource::Implicit
    &&& texts_conflict(lowercase(new_text), lowercase(c.text@))
}

/// The text of the fact that stands after a contradiction.
pub open spec fn settled(new_text: Seq<char>, old_text: Seq<char>, new_wins: bool) -> Seq<char> {
    if new_wins {
        new_text + " (overrides: "@ + old_text + ")"@
    } else {
        old_text + " (contested by: "@ + new_text + ")"@
    }
}

/// Settles a new fact against the remembered ones.
pub struct ContradictionResolver;

impl ContradictionResolver {
    /// The first remembered fact that the new text contradicts, if any.
    pub fn first_conflict(new_text: &str, existing: &[FactClaim]) -> (r: Option<usize>)
        ensures
            match r {
                Some(i) => {
                    &&& i < existing@.len()
                    &&& contradicts(new_text@, existing@[i as int])
                    &&& forall|j: int|
                        0 <= j < i ==> !contradicts(new_text@, #[trigger] existing@[j])
                },
                None => forall|j: int|
                    0 <= j < existing@.len() ==> !contradicts(new_text@, #[trigger] existing@[j]),
            },
    {
        let mut i: usize = 0;
        while i < existing.len()
            invariant
                i <= existing@.len(),
                forall|j: int| 0 <= j < i ==> !contradicts(new_text@, #[trigger] existing@[j]),
            decreases existing.len() - i,
        {
            let c = &existing[i];
            let implicit = match c.source {
                FactSource::Implicit => true,
                _ => false,
            };
            if implicit && text_conflicts(new_text, c.text.as_str()) {
                return Some(i);
            }
            i += 1;
        }
        None
    }

    /// The text of the fact that stands: the new one marked as overriding
    /// the old one where it wins, else the old one marked as contested.
    pub fn settled_text(new_text: &str, old_text: &str, new_wins: bool) -> (r: String)
        ensures
            r@ == settled(new_text@, old_text@, new_wins),
    {
        let mut out = String::new();
        if new_wins {
            push_str(&mut out, new_text);
            push_str(&mut out, " (overrides: ");
            push_str(&mut out, old_text);
        } else {
            push_str(&mut out, old_text);
            push_str(&mut out, " (contested by: ");
            push_str(&mut out, new_text);
        }
        push_str(&mut out, ")");
        out
    }
}


/// How many of the words a text contains (each word counted as often
/// as it is listed).
pub open spec fn word_hits(text: Seq<char>, words: Seq<Seq<char>>) -> nat
    decreases words.len(),
{
    if words.len() == 0 {
        0
    } else {
        word_hits(text, words.drop_last()) + if contains(text, words.last()) {
            1nat
        } else {
            0nat
        }
    }
}

/// How a remembered fact matches a search query, both compared in lower
/// case: whether its text holds the whole query, and how many of the
/// query's whitespace-separated words it holds.
pub fn query_match(text: &str, query: &str) -> (r: (bool, usize))
    ensures
        r.0 == contains(lowercase(text@), lowercase(query@)),
        r.1 == word_hits(lowercase(text@), ws_words(lowercase(query@))),
{
    let tl = str_to_lowercase(text);
    let ql = str_to_lowercase(query);
    let exact = str_contains(tl.as_str(), ql.as_str());
    let words = split_whitespace_exec(ql.as_str());
    let mut hits: usize = 0;
    let mut i: usize = 0;
    while i < words.len()
        invariant
            i <= words@.len(),
            hits <= i,
            hits == word_hits(tl@, views(words@).take(i as int)),
        decreases words.len() - i,
    {
        proof {
            assert(views(words@).take(i + 1).drop_last() =~= views(words@).take(i as int));
            assert(views(words@).take(i + 1).last() == words@[i as int]@);
        }
        if str_contains(tl.as_str(), words[i].as_str()) {
            hits += 1;
        }
        i += 1;
    }
    assert(views(words@).take(i as int) =~= views(words@));
    (exact, hits)
}


/// Whether a kind of signal moves the interest in its topic.
pub open spec fn moves_interest(kind: SignalKind) -> bool {
    match kind {
        SignalKind::CodeBlockCopied | SignalKind::HeavyEdit | SignalKind::RegenerateRequest
        | SignalKind::FollowUp | SignalKind::LongDwell | SignalKind::ExplicitStackMention => true,
        _ => false,
    }
}

/// What a signal changes in a profile; how far scores move is up to the
/// caller.
#[derive(Debug, Clone)]
pub struct SignalEffect {
    /// The topic whose interest moves, if any.
    pub reinforce: Option<String>,
    /// A stack to drop, by name, and the stack to add in its place.
    pub replace: Option<(String, String)>,
    /// A stack the user named.
    pub mention: Option<String>,
    /// The language the user writes in.
    pub language: Option<Language>,
}

impl SignalKind {
    /// Whether the kind moves the interest in its topic.
    pub fn moves_interest(self) -> (r: bool)
        ensures
            r == moves_interest(self),
    {
        match self {
            SignalKind::CodeBlockCopied | SignalKind::HeavyEdit | SignalKind::RegenerateRequest
            | SignalKind::FollowUp | SignalKind::LongDwell | SignalKind::ExplicitStackMention => true,
            _ => false,
        }
    }
}

/// What a signal of a kind changes in a profile, given its topic and the
/// replacement library, stack name and language its details carry: the
/// interest in the topic moves for the kinds that move interests; a
/// replaced library drops the stack named after the topic as replaced and
/// adds the replacement; a named stack is strengthened or added; a
/// language sample that names a language sets it.
pub fn signal_effect(
    kind: SignalKind,
    topic: Option<&str>,
    replacement: Option<&str>,
    name: Option<&str>,
    language: Option<&str>,
) -> (r: SignalEffect)
    ensures
        moves_interest(kind) && topic is Some ==> (r.reinforce matches Some(t) && t@ == topic->0@),
        !(moves_interest(kind) && topic is Some) ==> r.reinforce is None,
        match (kind, topic, replacement) {
            (SignalKind::LibraryReplaced, Some(t), Some(l)) => r.replace matches Some(p) && p.0@ == t@
                + " (replaced)"@ && p.1@ == l@,
            _ => r.replace is None,
        },
        match (kind, name) {
            (SignalKind::ExplicitStackMention, Some(n)) => r.mention matches Some(m) && m@ == n@,
            _ => r.mention is None,
        },
        match (kind, language) {
            (SignalKind::LanguageSample, Some(l)) => r.language == language_named(l@),
            _ => r.language is None,
        },
{
    let reinforce = match topic {
        Some(t) => if kind.moves_interest() {
            Some(to_owned(t))
        } else {
            None
        },
        None => None,
    };
    let replace = match (kind, topic, replacement) {
        (SignalKind::LibraryReplaced, Some(t), Some(l)) => {
            let mut gone = to_owned(t);
            push_str(&mut gone, " (replaced)");
            Some((gone, to_owned(l)))
        },
        _ => None,
    };
    let mention = match (kind, name) {
        (SignalKind::ExplicitStackMention, Some(n)) => Some(to_owned(n)),
        _ => None,
    };
    let lang = match (kind, language) {
        (SignalKind::LanguageSample, Some(l)) => parse_language(l),
        _ => None,
    };
    SignalEffect { reinforce, replace, mention, language: lang }
}

/// A change to the score of an interest, in hundredths of the score.
#[derive(Debug, Clone)]
pub struct InterestBoost {
    pub topic: String,
    pub hundredths: i32,
}

/// What compile results teach the interest graph.
pub struct CompileFeedback;

impl CompileFeedback {
    /// A build of a stack that succeeded raises interest in the stack by
    /// five hundredths.
    pub fn record_success(stack_name: &str) -> (r: InterestBoost)
        ensures
            r.topic@ == stack_name@,
            r.hundredths == 5,
    {
        InterestBoost { topic: to_owned(stack_name), hundredths: 5 }
    }

    /// A build that failed lowers interest in the error's topic by three
    /// hundredths.
    pub fn record_failure(error: &str) -> (r: InterestBoost)
        ensures
            r.topic@ == error_topic(error@),
            r.hundredths == -3,
    {
        InterestBoost { topic: extract_topic_from_error(error), hundredths: -3 }
    }
}

/// How a store reports a fact it does not hold.
pub open spec fn missing_fact_message(id: Seq<char>) -> Seq<char> {
    "fact "@ + id + " not found"@
}

/// The refusal for a fact the store does not hold.
fn missing_fact(id: &str) -> (r: String)
    ensures
        r@ == missing_fact_message(id@),
{
    let mut m = to_owned("fact ");
    push_str(&mut m, id);
    push_str(&mut m, " not found");
    m
}

/// Give the first fact with the given id a new value (its text); a store
/// that holds no such fact is left as it was and says so.
pub fn update_fact<T>(facts: &mut Vec<(String, T)>, id: &str, value: T) -> (r: Result<(), String>)
    ensures
        match position_of(old(facts)@, id@) {
            Some(i) => r is Ok && final(facts)@ == old(facts)@.update(i, (old(facts)@[i].0, value)),
            None => r matches Err(m) && m@ == missing_fact_message(id@) && final(facts)@ == old(facts)@,
        },
{
    proof {
        lemma_position_of(facts@, id@);
    }
    let ghost before = facts@;
    match find_id(facts, id) {
        Some(i) => {
            let (key, _) = facts.remove(i);
            facts.insert(i, (key, value));
            assert(facts@ =~= before.update(i as int, (before[i as int].0, value)));
            Ok(())
        },
        None => Err(missing_fact(id)),
    }
}

/// The facts without those that have the given id, in order.
pub open spec fn without_id<T>(facts: Seq<(String, T)>, id: Seq<char>) -> Seq<(String, T)>
    decreases facts.len(),
{
    if facts.len() == 0 {
        facts
    } else if facts.last().0@ == id {
        without_id(facts.drop_last(), id)
    } else {
        without_id(facts.drop_last(), id).push(facts.last())
    }
}

/// Remove every fact with the given id; a store that held none says so.
pub fn delete_fact<T>(facts: &mut Vec<(String, T)>, id: &str) -> (r: Result<(), String>)
    ensures
        final(facts)@ == without_id(old(facts)@, id@),
        r is Ok <==> exists|j: int| 0 <= j < old(facts)@.len() && #[trigger] old(facts)@[j].0@ == id@,
        r matches Err(m) ==> m@ == missing_fact_message(id@),
{
    let ghost before = facts@;
    let ghost mut k: int = 0;
    let mut i: usize = 0;
    let mut removed = false;
    assert(before.skip(0) =~= before);
    while i < facts.len()
        invariant
            0 <= k <= before.len(),
            i == without_id(before.take(k), id@).len(),
            facts@ == without_id(before.take(k), id@) + before.skip(k),
            removed <==> exists|j: int| 0 <= j < k && #[trigger] before[j].0@ == id@,
        decreases facts.len() - i,
    {
        let ghost kept = without_id(before.take(k), id@);
        proof {
            assert(before.take(k + 1).drop_last() =~= before.take(k));
            assert(before.take(k + 1).last() == before[k]);
            assert(facts@[i as int] == before[k]);
        }
        if str_eq(facts[i].0.as_str(), id) {
            facts.remove(i);
            removed = true;
            proof {
                assert(facts@ =~= kept + before.skip(k + 1));
                k = k + 1;
            }
        } else {
            proof {
                assert(facts@ =~= kept.push(before[k]) + before.skip(k + 1));
                k = k + 1;
            }
            i += 1;
        }
    }
    proof {
        assert(before.skip(k).len() == 0);
        assert(k == before.len());
        assert(before.take(k) =~= before);
        assert(facts@ =~= without_id(before, id@));
    }
    if removed {
        Ok(())
    } else {
        Err(missing_fact(id))
    }
}

} // verus!
