//! The user profile as the prompt shows it: preference enums and the XML
//! memory block.
use vstd::prelude::*;

use crate::prompt::{escape_xml, xml_escaped};
use crate::text::{
    contains, decimal, decimal_string, ends_with, join, join_exec, occurs_at, push_str, starts_with,
    str_eq, to_owned, views,
};

verus! {

/// Preferred response verbosity.
#[derive(Debug, Clone, Copy, PartialEq, Eq, Structural)]
pub enum ResponseStyle {
    /// Short, direct, minimal explanation.
    Concise,
    /// Explain non-obvious decisions.
    Balanced,
    /// Explain the why behind every step.
    Detailed,
}

/// Language for prose responses.
#[derive(Debug, Clone, Copy, PartialEq, Eq, Structural)]
pub enum Language {
    /// Romanized Bengali.
    Banglish,
    /// English.
    English,
    /// Bengali script.
    Bengali,
}

/// Where a fact came from.
#[derive(Debug, Clone, Copy, PartialEq, Eq, Structural)]
pub enum FactSource {
    /// Said directly.
    Explicit,
    /// Detected from behavior.
    Implicit,
    /// Inferred by the model.
    Inferred,
    /// Imported from elsewhere.
    Imported,
}

/// A remembered fact as the memory block shows it: its id, its
/// confidence already written with two decimals, and its text.
#[derive(Debug, Clone)]
pub struct FactView {
    pub id: String,
    pub confidence: String,
    pub text: String,
}

/// A profile as the memory block shows it; the expertise level is
/// already written with two decimals.
#[derive(Debug, Clone)]
pub struct ProfileView {
    pub summary: String,
    pub facts: Vec<FactView>,
    pub response_style: ResponseStyle,
    pub language: Language,
    pub expertise_level: String,
}

/// The name of a response style.
pub open spec fn style_name(s: ResponseStyle) -> Seq<char> {
    match s {
        ResponseStyle::Concise => "Concise"@,
        ResponseStyle::Balanced => "Balanced"@,
        ResponseStyle::Detailed => "Detailed"@,
    }
}

/// The name of a language.
pub open spec fn language_name(l: Language) -> Seq<char> {
    match l {
        Language::Banglish => "Banglish"@,
        Language::English => "English"@,
        Language::Bengali => "Bengali"@,
    }
}

/// The element of a fact.
pub open spec fn fact_element(f: FactView) -> Seq<char> {
    "    <fact id=\""@ + xml_escaped(f.id@) + "\" confidence=\""@ + f.confidence@ + "\">"@
        + xml_escaped(f.text@) + "</fact>\n"@
}

/// The elements of the first `k` facts.
pub open spec fn fact_elements(facts: Seq<FactView>, k: int) -> Seq<char>
    decreases k,
{
    if k <= 0 {
        seq![]
    } else {
        fact_elements(facts, k - 1) + fact_element(facts[k - 1])
    }
}

/// The memory block: the summary, the first five facts, and the
/// preferences, with text escaped for XML.
pub open spec fn memory_block(p: ProfileView) -> Seq<char> {
    let shown = if p.facts@.len() < 5 {
        p.facts@.len() as int
    } else {
        5
    };
    "<memory>\n  <profile_summary>"@ + xml_escaped(p.summary@) + "</profile_summary>\n"@
        + "  <relevant_facts>\n"@ + fact_elements(p.facts@, shown) + "  </relevant_facts>\n"@
        + "  <preferences>\n"@ + "    <response_style>"@ + style_name(p.response_style)
        + "</response_style>\n"@ + "    <language>"@ + language_name(p.language)
        + "</language>\n"@ + "    <expertise_level>"@ + p.expertise_level@
        + "</expertise_level>\n"@ + "  </preferences>\n"@ + "</memory>"@
}

/// Render a profile as the XML memory block of the system prompt.
pub fn render_memory(profile: &ProfileView) -> (r: String)
    ensures
        r@ == memory_block(*profile),
{
    let mut s = to_owned("<memory>\n  <profile_summary>");
    let sum = escape_xml(profile.summary.as_str());
    push_str(&mut s, sum.as_str());
    push_str(&mut s, "</profile_summary>\n");
    push_str(&mut s, "  <relevant_facts>\n");
    let n = profile.facts.len();
    let shown: usize = if n < 5 {
        n
    } else {
        5
    };
    let ghost head = s@;
    let mut i: usize = 0;
    while i < shown
        invariant
            i <= shown <= n == profile.facts@.len(),
            s@ == head + fact_elements(profile.facts@, i as int),
        decreases shown - i,
    {
        let f = &profile.facts[i];
        push_str(&mut s, "    <fact id=\"");
        let id = escape_xml(f.id.as_str());
        push_str(&mut s, id.as_str());
        push_str(&mut s, "\" confidence=\"");
        push_str(&mut s, f.confidence.as_str());
        push_str(&mut s, "\">");
        let t = escape_xml(f.text.as_str());
        push_str(&mut s, t.as_str());
        push_str(&mut s, "</fact>\n");
        i += 1;
        assert(s@ =~= head + fact_elements(profile.facts@, i as int));
    }
    push_str(&mut s, "  </relevant_facts>\n");
    push_str(&mut s, "  <preferences>\n");
    push_str(&mut s, "    <response_style>");
    push_str(
        &mut s,
        match profile.response_style {
            ResponseStyle::Concise => "Concise",
            ResponseStyle::Balanced => "Balanced",
            ResponseStyle::Detailed => "Detailed",
        },
    );
    push_str(&mut s, "</response_style>\n");
    push_str(&mut s, "    <language>");
    push_str(
        &mut s,
        match profile.language {
            Language::Banglish => "Banglish",
            Language::English => "English",
            Language::Bengali => "Bengali",
        },
    );
    push_str(&mut s, "</language>\n");
    push_str(&mut s, "    <expertise_level>");
    push_str(&mut s, profile.expertise_level.as_str());
    push_str(&mut s, "</expertise_level>\n");
    push_str(&mut s, "  </preferences>\n");
    push_str(&mut s, "</memory>");
    assert(s@ =~= memory_block(*profile));
    s
}

/// How much a profile holds: its facts, stacks and interests.
#[derive(Debug, Clone, Copy, PartialEq, Eq, Structural)]
pub struct ProfileShape {
    pub facts: usize,
    pub stacks: usize,
    pub interests: usize,
}

/// Handles profiles that hold too little to personalize with.
pub struct ColdStartHandler;

/// The onboarding message for a profile: a welcome when it is empty, the
/// learning progress while it is not yet usable, nothing after.
pub open spec fn onboarding_text(p: ProfileShape) -> Option<Seq<char>> {
    if p.facts == 0 && p.stacks == 0 && p.interests == 0 {
        Some(
            "👋 I'm KontroCode! I'll learn your preferences as we work. Start by asking me to build something!"@,
        )
    } else if !(p.facts >= 2 || p.stacks > 0) {
        Some("🔄 Still learning... "@ + decimal(p.facts as nat) + " signals collected"@)
    } else {
        None
    }
}

impl ColdStartHandler {
    /// Whether a profile holds nothing yet.
    pub fn is_cold(p: &ProfileShape) -> (r: bool)
        ensures
            r == (p.facts == 0 && p.stacks == 0 && p.interests == 0),
    {
        p.facts == 0 && p.stacks == 0 && p.interests == 0
    }

    /// Whether a profile holds enough to personalize with: two facts, or
    /// a stack.
    pub fn is_usable(p: &ProfileShape) -> (r: bool)
        ensures
            r == (p.facts >= 2 || p.stacks > 0),
    {
        p.facts >= 2 || p.stacks > 0
    }

    /// The onboarding message for a profile, if one is due.
    pub fn onboarding_message(p: &ProfileShape) -> (r: Option<String>)
        ensures
            match onboarding_text(*p) {
                Some(t) => r matches Some(s) && s@ == t,
                None => r is None,
            },
    {
        if Self::is_cold(p) {
            Some(
                to_owned(
                    "👋 I'm KontroCode! I'll learn your preferences as we work. Start by asking me to build something!",
                ),
            )
        } else if !Self::is_usable(p) {
            let mut s = to_owned("🔄 Still learning... ");
            let d = decimal_string(p.facts as u128);
            push_str(&mut s, d.as_str());
            push_str(&mut s, " signals collected");
            Some(s)
        } else {
            None
        }
    }
}

/// The language a language sample names, if it names one.
pub open spec fn language_named(s: Seq<char>) -> Option<Language> {
    if s == "banglish"@ {
        Some(Language::Banglish)
    } else if s == "english"@ {
        Some(Language::English)
    } else if s == "bengali"@ {
        Some(Language::Bengali)
    } else {
        None
    }
}

/// The language a language sample names (`banglish`, `english` or
/// `bengali`), if it names one.
pub fn parse_language(s: &str) -> (r: Option<Language>)
    ensures
        r == language_named(s@),
{
    if str_eq(s, "banglish") {
        Some(Language::Banglish)
    } else if str_eq(s, "english") {
        Some(Language::English)
    } else if str_eq(s, "bengali") {
        Some(Language::Bengali)
    } else {
        None
    }
}

/// The memory block is well-formed XML at its edges whatever the profile
/// holds: it opens with `<memory>`, closes with `</memory>`, and has a
/// preferences section.
pub proof fn lemma_memory_block_well_formed(p: ProfileView)
    ensures
        starts_with(memory_block(p), "<memory>"@),
        ends_with(memory_block(p), "</memory>"@),
        contains(memory_block(p), "<preferences>"@),
{
    let b = memory_block(p);
    let shown = if p.facts@.len() < 5 {
        p.facts@.len() as int
    } else {
        5
    };
    let head = "<memory>\n  <profile_summary>"@ + xml_escaped(p.summary@) + "</profile_summary>\n"@
        + "  <relevant_facts>\n"@ + fact_elements(p.facts@, shown) + "  </relevant_facts>\n"@;
    let tail = "  <preferences>\n"@ + "    <response_style>"@ + style_name(p.response_style)
        + "</response_style>\n"@ + "    <language>"@ + language_name(p.language)
        + "</language>\n"@ + "    <expertise_level>"@ + p.expertise_level@
        + "</expertise_level>\n"@ + "  </preferences>\n"@ + "</memory>"@;
    assert(b =~= head + tail);
    reveal_strlit("<memory>");
    reveal_strlit("<memory>\n  <profile_summary>");
    reveal_strlit("</memory>");
    reveal_strlit("<preferences>");
    reveal_strlit("  <preferences>\n");
    assert(b.subrange(0, 8) =~= "<memory>"@);
    assert(b.subrange(b.len() - 9, b.len() as int) =~= "</memory>"@);
    let at = head.len() as int + 2;
    assert(b.subrange(at, at + 13) =~= "<preferences>"@);
    assert(occurs_at(b, "<preferences>"@, at));
}

/// Facts the user pinned to every prompt.
#[derive(Debug, Clone)]
pub struct PinnedContext {
    pub facts: Vec<FactView>,
    pub max_pins: usize,
}

/// The facts without those with the given id, in order.
pub open spec fn without_id(facts: Seq<FactView>, id: Seq<char>) -> Seq<FactView>
    decreases facts.len(),
{
    if facts.len() == 0 {
        seq![]
    } else {
        let rest = without_id(facts.drop_last(), id);
        if facts.last().id@ == id {
            rest
        } else {
            rest.push(facts.last())
        }
    }
}

/// The pinned facts as the prompt shows them.
pub open spec fn pinned_block(facts: Seq<FactView>) -> Seq<char> {
    if facts.len() == 0 {
        seq![]
    } else {
        "<pinned_context>\n"@ + join(facts.map_values(|f: FactView| "- "@ + f.text@), "\n"@)
            + "\n</pinned_context>\n"@
    }
}

/// Drop the facts with an id, keeping the others in order.
fn remove_id(facts: &mut Vec<FactView>, id: &str)
    ensures
        final(facts)@ == without_id(old(facts)@, id@),
{
    let ghost orig = facts@;
    let mut rest: Vec<FactView> = Vec::new();
    std::mem::swap(&mut rest, facts);
    let mut kept: Vec<FactView> = Vec::new();
    let ghost mut k: int = 0;
    assert(orig.skip(0) =~= orig);
    while rest.len() > 0
        invariant
            0 <= k <= orig.len(),
            rest@ == orig.skip(k),
            kept@ == without_id(orig.take(k), id@),
        decreases rest.len(),
    {
        proof {
            assert(orig.take(k + 1).drop_last() =~= orig.take(k));
            assert(orig.take(k + 1).last() == orig[k]);
            assert(rest@[0] == orig[k]);
        }
        let f = rest.remove(0);
        if !str_eq(f.id.as_str(), id) {
            kept.push(f);
        }
        proof {
            assert(rest@ =~= orig.skip(k + 1));
            k = k + 1;
        }
    }
    assert(orig.take(k) =~= orig);
    *facts = kept;
}

impl PinnedContext {
    /// No pinned facts, room for five.
    pub fn new() -> (r: Self)
        ensures
            r.facts@.len() == 0,
            r.max_pins == 5,
    {
        PinnedContext { facts: Vec::new(), max_pins: 5 }
    }

    /// Pin a fact, replacing any pinned fact with its id; refused when
    /// the pins are full.
    pub fn pin(&mut self, fact: FactView) -> (r: Result<(), String>)
        ensures
            final(self).max_pins == old(self).max_pins,
            old(self).facts@.len() >= old(self).max_pins ==> {
                &&& r matches Err(m) && m@ == "Max "@ + decimal(old(self).max_pins as nat) + " pinned facts"@
                &&& final(self).facts@ == old(self).facts@
            },
            old(self).facts@.len() < old(self).max_pins ==> {
                &&& r is Ok
                &&& final(self).facts@ == without_id(old(self).facts@, fact.id@).push(fact)
            },
    {
        if self.facts.len() >= self.max_pins {
            let mut m = to_owned("Max ");
            let d = decimal_string(self.max_pins as u128);
            push_str(&mut m, d.as_str());
            push_str(&mut m, " pinned facts");
            return Err(m);
        }
        let id = fact.id.clone();
        remove_id(&mut self.facts, id.as_str());
        self.facts.push(fact);
        Ok(())
    }

    /// Unpin the facts with an id.
    pub fn unpin(&mut self, id: &str)
        ensures
            final(self).max_pins == old(self).max_pins,
            final(self).facts@ == without_id(old(self).facts@, id@),
    {
        remove_id(&mut self.facts, id);
    }

    /// The pinned facts, in pinning order.
    pub fn list(&self) -> (r: &[FactView])
        ensures
            r@ == self.facts@,
    {
        self.facts.as_slice()
    }

    /// The pinned facts as a prompt block: one `- text` line each; empty
    /// without pins.
    pub fn to_prompt_injection(&self) -> (r: String)
        ensures
            r@ == pinned_block(self.facts@),
    {
        if self.facts.len() == 0 {
            return String::new();
        }
        let mut items: Vec<String> = Vec::new();
        let mut i: usize = 0;
        while i < self.facts.len()
            invariant
                i <= self.facts.len(),
                views(items@) == self.facts@.take(i as int).map_values(|f: FactView| "- "@ + f.text@),
            decreases self.facts.len() - i,
        {
            let mut line = to_owned("- ");
            push_str(&mut line, self.facts[i].text.as_str());
            let ghost before = items@;
            items.push(line);
            assert(views(items@) =~= views(before).push("- "@ + self.facts@[i as int].text@));
            assert(self.facts@.take(i + 1) =~= self.facts@.take(i as int).push(self.facts@[i as int]));
            i += 1;
            assert(views(items@) =~= self.facts@.take(i as int).map_values(|f: FactView| "- "@ + f.text@));
        }
        assert(self.facts@.take(i as int) =~= self.facts@);
        let joined = join_exec(&items, "\n");
        let mut out = to_owned("<pinned_context>\n");
        push_str(&mut out, joined.as_str());
        push_str(&mut out, "\n</pinned_context>\n");
        out
    }
}

/// Dropping the facts with an id leaves none with it, and no more facts
/// than before.
proof fn lemma_without_id(facts: Seq<FactView>, id: Seq<char>)
    ensures
        without_id(facts, id).len() <= facts.len(),
        forall|i: int| 0 <= i < without_id(facts, id).len() ==> #[trigger] without_id(facts, id)[i].id@ != id,
    decreases facts.len(),
{
    if facts.len() > 0 {
        lemma_without_id(facts.drop_last(), id);
        let rest = without_id(facts.drop_last(), id);
        if facts.last().id@ != id {
            assert forall|i: int| 0 <= i < without_id(facts, id).len() implies #[trigger] without_id(facts, id)[i].id@ != id by {
                if i < rest.len() {
                    assert(without_id(facts, id)[i] == rest[i]);
                }
            }
        }
    }
}

/// Pinning never exceeds the limit, and a pinned fact is pinned once:
/// after a successful pin, the new fact is the only one with its id.
pub proof fn lemma_pin_once_within_limit(facts: Seq<FactView>, max_pins: usize, fact: FactView)
    requires
        facts.len() < max_pins,
    ensures
        without_id(facts, fact.id@).push(fact).len() <= max_pins,
        forall|i: int|
            0 <= i < without_id(facts, fact.id@).push(fact).len() && (#[trigger] without_id(
                facts,
                fact.id@,
            ).push(fact)[i]).id@ == fact.id@ ==> i == without_id(facts, fact.id@).len(),
{
    lemma_without_id(facts, fact.id@);
    let kept = without_id(facts, fact.id@);
    assert forall|i: int| 0 <= i < kept.push(fact).len() && (#[trigger] kept.push(fact)[i]).id@ == fact.id@ implies i == kept.len() by {
        if i < kept.len() {
            assert(kept.push(fact)[i] == kept[i]);
        }
    }
}

} // verus!
