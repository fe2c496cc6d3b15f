//! Research sources and the records they produce.
use vstd::prelude::*;

use std::time::Duration;

use crate::intent::Stack;
use crate::text::str_eq;

verus! {

/// A pattern the model must avoid.
#[derive(Debug, Clone)]
pub struct DeprecatedPattern {
    /// The pattern itself.
    pub pattern: String,
    /// Why it must be avoided.
    pub reason: String,
    /// When it was deprecated, if known.
    pub deprecated_in: Option<String>,
    /// Suggested replacement.
    pub replacement: Option<String>,
}

/// Identifies a research source.
#[derive(Debug, Clone, Copy, PartialEq, Eq, Structural, Hash)]
pub enum ResearchSource {
    OfficialDocs,
    PubDev,
    Npm,
    CratesIo,
    Github,
    StackOverflow,
}

/// Whether a source applies to a stack: docs, GitHub and Stack Overflow
/// apply to every stack, pub.dev to Flutter, npm to the JavaScript
/// family, crates.io to Rust.
pub open spec fn source_supports(src: ResearchSource, stack: Stack) -> bool {
    match src {
        ResearchSource::OfficialDocs => true,
        ResearchSource::PubDev => stack == Stack::Flutter,
        ResearchSource::Npm => stack == Stack::Node || stack == Stack::React || stack == Stack::Vue
            || stack == Stack::Svelte,
        ResearchSource::CratesIo => stack == Stack::Rust,
        ResearchSource::Github => true,
        ResearchSource::StackOverflow => true,
    }
}

/// The stable identifier of a source.
pub open spec fn source_id(src: ResearchSource) -> Seq<char> {
    match src {
        ResearchSource::OfficialDocs => "official_docs"@,
        ResearchSource::PubDev => "pub.dev"@,
        ResearchSource::Npm => "npm"@,
        ResearchSource::CratesIo => "crates.io"@,
        ResearchSource::Github => "github"@,
        ResearchSource::StackOverflow => "stackoverflow"@,
    }
}

impl ResearchSource {
    /// Whether this source applies to a given stack.
    pub fn supports(self, stack: Stack) -> (r: bool)
        ensures
            r == source_supports(self, stack),
    {
        match self {
            ResearchSource::OfficialDocs => true,
            ResearchSource::PubDev => stack == Stack::Flutter,
            ResearchSource::Npm => stack == Stack::Node || stack == Stack::React || stack
                == Stack::Vue || stack == Stack::Svelte,
            ResearchSource::CratesIo => stack == Stack::Rust,
            ResearchSource::Github => true,
            ResearchSource::StackOverflow => true,
        }
    }

    /// Stable identifier (used for caching keys).
    pub fn id(self) -> (r: &'static str)
        ensures
            r@ == source_id(self),
    {
        match self {
            ResearchSource::OfficialDocs => "official_docs",
            ResearchSource::PubDev => "pub.dev",
            ResearchSource::Npm => "npm",
            ResearchSource::CratesIo => "crates.io",
            ResearchSource::Github => "github",
            ResearchSource::StackOverflow => "stackoverflow",
        }
    }
}

/// A source that applies to every stack and never finds anything.
#[derive(Debug, Default, Clone, Copy)]
pub struct NullSource;

impl NullSource {
    /// Stable identifier.
    pub fn id(&self) -> (r: &'static str)
        ensures
            r@ == "null"@,
    {
        "null"
    }

    /// Every stack is supported.
    pub fn supports(&self, stack: Stack) -> (r: bool)
        ensures
            r,
    {
        true
    }
}

/// Cloning a duration (`Duration` is `Copy`) gives the same duration.
pub assume_specification[ <Duration as Clone>::clone ](d: &Duration) -> (r: Duration)
    ensures
        r == *d,
;

/// A duration of whole seconds (`Duration::from_secs`). Nothing is
/// stated of it: durations are opaque here.
#[verifier::external_body]
fn from_secs(secs: u64) -> Duration {
    Duration::from_secs(secs)
}

/// How the research runner queries its sources.
#[derive(Debug, Clone)]
pub struct ResearchRunnerConfig {
    /// How long a source may take.
    pub source_timeout: Duration,
    /// Whether Stack Overflow is queried.
    pub include_stack_overflow: bool,
    /// Whether GitHub is queried.
    pub include_github: bool,
}

impl Default for ResearchRunnerConfig {
    /// Two seconds per source, every source included.
    fn default() -> (r: Self)
        ensures
            r.include_stack_overflow,
            r.include_github,
    {
        ResearchRunnerConfig {
            source_timeout: from_secs(2),
            include_stack_overflow: true,
            include_github: true,
        }
    }
}

/// Whether the configuration lets a source with this id run: Stack
/// Overflow and GitHub can be switched off, the others always run.
pub open spec fn source_enabled(c: ResearchRunnerConfig, id: Seq<char>) -> bool {
    if id == "stackoverflow"@ {
        c.include_stack_overflow
    } else if id == "github"@ {
        c.include_github
    } else {
        true
    }
}

/// The sources a query on a stack runs: the enabled ones that support
/// the stack, in order.
pub open spec fn applicable_sources(c: ResearchRunnerConfig, sources: Seq<ResearchSource>, stack: Stack) -> Seq<ResearchSource>
    decreases sources.len(),
{
    if sources.len() == 0 {
        seq![]
    } else {
        let rest = applicable_sources(c, sources.drop_last(), stack);
        let s = sources.last();
        if source_enabled(c, source_id(s)) && source_supports(s, stack) {
            rest.push(s)
        } else {
            rest
        }
    }
}

impl ResearchRunnerConfig {
    /// Whether a source with this id may run.
    pub fn enables(&self, id: &str) -> (r: bool)
        ensures
            r == source_enabled(*self, id@),
    {
        if str_eq(id, "stackoverflow") {
            self.include_stack_overflow
        } else if str_eq(id, "github") {
            self.include_github
        } else {
            true
        }
    }

    /// The sources a query on `stack` runs.
    pub fn applicable(&self, sources: &[ResearchSource], stack: Stack) -> (r: Vec<ResearchSource>)
        ensures
            r@ == applicable_sources(*self, sources@, stack),
    {
        let mut out: Vec<ResearchSource> = Vec::new();
        let mut i: usize = 0;
        while i < sources.len()
            invariant
                i <= sources.len(),
                out@ == applicable_sources(*self, sources@.take(i as int), stack),
            decreases sources.len() - i,
        {
            proof {
                assert(sources@.take(i + 1).drop_last() =~= sources@.take(i as int));
                assert(sources@.take(i + 1).last() == sources@[i as int]);
            }
            let s = sources[i];
            if self.enables(s.id()) && s.supports(stack) {
                out.push(s);
            }
            i += 1;
        }
        assert(sources@.take(i as int) =~= sources@);
        out
    }
}

} // verus!
