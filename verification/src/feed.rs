//! The research feed: a log of what each research source is doing, and
//! its renderings for the UI.
use vstd::prelude::*;

use std::time::{Duration, Instant};

use crate::text::{
    byte_len, byte_len_exact, chars_of, decimal, decimal_string, fit_prefix, fit_prefix_exec,
    join, join_exec, pad_left, pad_left_exec, pad_right, pad_right_exec, push_str,
    string_from, to_owned, views,
};

verus! {

/// `std::time::Instant`, carried through the feed as an opaque value.
#[verifier::external_type_specification]
#[verifier::external_body]
pub struct ExInstant(Instant);

/// Cloning an instant (`Instant` is `Copy`) gives the same instant.
pub assume_specification[ <Instant as Clone>::clone ](i: &Instant) -> (r: Instant)
    ensures
        r == *i,
;

/// The current instant (`Instant::now`). Nothing is stated of it: it
/// depends on the clock.
#[verifier::external_body]
fn now() -> Instant {
    Instant::now()
}

/// The time from `earlier` to `later` (`Instant::duration_since`, which
/// gives zero when `later` is the earlier one). Nothing is stated of it:
/// instants are opaque here.
#[verifier::external_body]
fn duration_since(later: &Instant, earlier: &Instant) -> Duration {
    later.duration_since(*earlier)
}

/// The whole milliseconds of a duration (`Duration::as_millis`). Nothing
/// is stated of it: durations are opaque here.
#[verifier::external_body]
fn as_millis(d: &Duration) -> u128 {
    d.as_millis()
}

/// What a research source is doing.
#[derive(Debug, Clone)]
pub enum ResearchStatus {
    Started,
    Fetching,
    CacheHit,
    CacheMiss,
    Done(usize),
    Error(String),
}

/// One entry of the feed.
#[derive(Debug, Clone)]
pub struct ResearchEvent {
    pub source: String,
    pub status: ResearchStatus,
    pub message: String,
    pub timestamp: Instant,
}

/// The feed of research events, oldest first.
pub struct ResearchFeed {
    events: Vec<ResearchEvent>,
    started_at: Instant,
}

/// The symbol of a status.
pub open spec fn status_text(s: ResearchStatus) -> Seq<char> {
    match s {
        ResearchStatus::Started => "▶"@,
        ResearchStatus::Fetching => "↓"@,
        ResearchStatus::CacheHit => "📦"@,
        ResearchStatus::CacheMiss => "🌐"@,
        ResearchStatus::Done(n) => "✓("@ + decimal(n as nat) + ")"@,
        ResearchStatus::Error(_) => "✗"@,
    }
}

/// A message as the feed shows it: one of more than 40 bytes is cut to
/// its first 37 bytes, followed by `...`.
pub open spec fn shown_message(m: Seq<char>) -> Seq<char> {
    if byte_len(m) > 40 {
        m.take(fit_prefix(m, 37) as int) + "..."@
    } else {
        m
    }
}

/// Whether cutting a long message at byte 37 falls between characters.
pub open spec fn cuts_cleanly(m: Seq<char>) -> bool {
    byte_len(m) > 40 ==> byte_len(m.take(fit_prefix(m, 37) as int)) == 37
}

/// The feed line of an event that came `ms` milliseconds after the start.
pub open spec fn event_line(e: ResearchEvent, ms: nat) -> Seq<char> {
    "│ "@ + status_text(e.status) + " "@ + pad_left(decimal(ms), 5) + "ms "@ + pad_right(
        e.source@,
        12,
    ) + " "@ + shown_message(e.message@) + " │\n"@
}

/// The lines of the `k` newest events, newest first.
pub open spec fn recent_lines(events: Seq<ResearchEvent>, ms: Seq<u128>, k: int) -> Seq<char>
    decreases k,
{
    if k <= 0 {
        seq![]
    } else {
        recent_lines(events, ms, k - 1) + event_line(
            events[events.len() - k],
            ms[events.len() - k] as nat,
        )
    }
}

/// How many events the feed shows: the ten newest.
pub open spec fn shown_count(n: nat) -> int {
    if n < 10 {
        n as int
    } else {
        10
    }
}

/// The number of finished events.
pub open spec fn done_count(events: Seq<ResearchEvent>) -> nat
    decreases events.len(),
{
    if events.len() == 0 {
        0
    } else {
        done_count(events.drop_last()) + if events.last().status is Done {
            1nat
        } else {
            0nat
        }
    }
}

/// The number of failed events.
pub open spec fn error_count(events: Seq<ResearchEvent>) -> nat
    decreases events.len(),
{
    if events.len() == 0 {
        0
    } else {
        error_count(events.drop_last()) + if events.last().status is Error {
            1nat
        } else {
            0nat
        }
    }
}

/// The boxed feed: the newest ten events (or a placeholder when there are
/// none), then the totals.
pub open spec fn feed_text(events: Seq<ResearchEvent>, ms: Seq<u128>) -> Seq<char> {
    FEED_TOP@ + (if events.len() == 0 {
        FEED_EMPTY@
    } else {
        recent_lines(events, ms, shown_count(events.len()))
    }) + FEED_BOTTOM@ + "  "@ + decimal(events.len()) + " sources | "@ + decimal(
        done_count(events),
    ) + " done | "@ + decimal(error_count(events)) + " errors\n"@
}

/// An event in the one-line rendering.
pub open spec fn compact_part(e: ResearchEvent) -> Seq<char> {
    match e.status {
        ResearchStatus::Done(n) => e.source@ + "("@ + decimal(n as nat) + ")"@,
        ResearchStatus::Error(_) => e.source@ + ":✗"@,
        _ => e.source@ + ":"@ + status_text(e.status),
    }
}

/// The one-line rendering of a feed.
pub open spec fn compact_text(events: Seq<ResearchEvent>) -> Seq<char> {
    "Research: "@ + join(events.map_values(|e: ResearchEvent| compact_part(e)), " → "@)
}

/// Top of the boxed feed.
pub const FEED_TOP: &'static str = "\n┌─ Research Feed ──────────────────────────────┐\n";

/// The boxed feed's line when there are no events.
pub const FEED_EMPTY: &'static str = "│  (no research yet)                              │\n";

/// Bottom of the boxed feed.
pub const FEED_BOTTOM: &'static str = "└────────────────────────────────────────────────┘\n";

/// How the UI's accordion labels a status.
pub open spec fn accordion_label(s: ResearchStatus) -> Seq<char> {
    match s {
        ResearchStatus::Done(_) => "complete"@,
        ResearchStatus::Error(_) => "error"@,
        ResearchStatus::CacheHit => "cached"@,
        _ => "fetching"@,
    }
}

impl ResearchStatus {
    /// How the UI's accordion labels the status: finished, failed, served
    /// from the cache, or still fetching.
    pub fn accordion_kind(&self) -> (r: &'static str)
        ensures
            r@ == accordion_label(*self),
    {
        match self {
            ResearchStatus::Done(_) => "complete",
            ResearchStatus::Error(_) => "error",
            ResearchStatus::CacheHit => "cached",
            _ => "fetching",
        }
    }

    /// The symbol of the status.
    pub fn to_string(&self) -> (r: String)
        ensures
            r@ == status_text(*self),
    {
        match self {
            ResearchStatus::Started => to_owned("▶"),
            ResearchStatus::Fetching => to_owned("↓"),
            ResearchStatus::CacheHit => to_owned("📦"),
            ResearchStatus::CacheMiss => to_owned("🌐"),
            ResearchStatus::Done(n) => {
                let mut s = to_owned("✓(");
                let d = decimal_string(*n as u128);
                push_str(&mut s, d.as_str());
                push_str(&mut s, ")");
                s
            },
            ResearchStatus::Error(_) => to_owned("✗"),
        }
    }
}

/// A message as the feed shows it.
fn shown_message_exec(m: &str) -> (r: String)
    ensures
        r@ == shown_message(m@),
{
    let cs = chars_of(m);
    let n = byte_len_exact(&cs);
    if n > 40 {
        let k = fit_prefix_exec(&cs, 37);
        let mut s = string_from(&cs, 0, k);
        push_str(&mut s, "...");
        s
    } else {
        to_owned(m)
    }
}

/// The feed line of an event.
fn event_line_exec(e: &ResearchEvent, ms: u128) -> (r: String)
    ensures
        r@ == event_line(*e, ms as nat),
{
    let mut s = to_owned("│ ");
    let st = e.status.to_string();
    push_str(&mut s, st.as_str());
    push_str(&mut s, " ");
    let d = decimal_string(ms);
    let dl = pad_left_exec(d.as_str(), 5);
    push_str(&mut s, dl.as_str());
    push_str(&mut s, "ms ");
    let src = pad_right_exec(e.source.as_str(), 12);
    push_str(&mut s, src.as_str());
    push_str(&mut s, " ");
    let msg = shown_message_exec(e.message.as_str());
    push_str(&mut s, msg.as_str());
    push_str(&mut s, " │\n");
    s
}

impl ResearchFeed {
    /// The events, oldest first.
    pub closed spec fn log(&self) -> Seq<ResearchEvent> {
        self.events@
    }

    /// An empty feed, started now.
    pub fn new() -> (r: Self)
        ensures
            r.log().len() == 0,
    {
        ResearchFeed { events: Vec::new(), started_at: now() }
    }

    /// Record what a source is doing, stamped with the current time.
    pub fn push(&mut self, source: &str, status: ResearchStatus, message: &str)
        ensures
            final(self).log().len() == old(self).log().len() + 1,
            final(self).log().take(old(self).log().len() as int) == old(self).log(),
            final(self).log().last().source@ == source@,
            final(self).log().last().status == status,
            final(self).log().last().message@ == message@,
    {
        let ev = ResearchEvent {
            source: to_owned(source),
            status,
            message: to_owned(message),
            timestamp: now(),
        };
        self.events.push(ev);
        assert(self.events@.take(old(self).events@.len() as int) =~= old(self).events@);
    }

    /// The events, oldest first.
    pub fn events(&self) -> (r: &[ResearchEvent])
        ensures
            r@ == self.log(),
    {
        self.events.as_slice()
    }

    /// The boxed feed for events that came the given numbers of
    /// milliseconds after the start (one number per event).
    pub fn render_with_elapsed(&self, elapsed_ms: &[u128]) -> (r: String)
        requires
            elapsed_ms@.len() == self.log().len(),
        ensures
            r@ == feed_text(self.log(), elapsed_ms@),
    {
        let n = self.events.len();
        let mut out = to_owned(FEED_TOP);
        if n == 0 {
            push_str(&mut out, FEED_EMPTY);
        } else {
            let shown: usize = if n < 10 {
                n
            } else {
                10
            };
            let ghost head = out@;
            let mut k: usize = 0;
            while k < shown
                invariant
                    k <= shown,
                    shown == shown_count(n as nat),
                    n == self.events@.len(),
                    elapsed_ms@.len() == n,
                    out@ == head + recent_lines(self.events@, elapsed_ms@, k as int),
                decreases shown - k,
            {
                let i = n - 1 - k;
                let line = event_line_exec(&self.events[i], elapsed_ms[i]);
                push_str(&mut out, line.as_str());
                k += 1;
                assert(out@ =~= head + recent_lines(self.events@, elapsed_ms@, k as int));
            }
        }
        push_str(&mut out, FEED_BOTTOM);
        let mut done: usize = 0;
        let mut errors: usize = 0;
        let mut j: usize = 0;
        while j < n
            invariant
                j <= n == self.events@.len(),
                done == done_count(self.events@.take(j as int)),
                errors == error_count(self.events@.take(j as int)),
                done <= j,
                errors <= j,
            decreases n - j,
        {
            proof {
                assert(self.events@.take(j + 1).drop_last() =~= self.events@.take(j as int));
                assert(self.events@.take(j + 1).last() == self.events@[j as int]);
            }
            match self.events[j].status {
                ResearchStatus::Done(_) => {
                    done += 1;
                },
                ResearchStatus::Error(_) => {
                    errors += 1;
                },
                _ => {},
            }
            j += 1;
        }
        assert(self.events@.take(n as int) =~= self.events@);
        push_str(&mut out, "  ");
        let a = decimal_string(n as u128);
        push_str(&mut out, a.as_str());
        push_str(&mut out, " sources | ");
        let b = decimal_string(done as u128);
        push_str(&mut out, b.as_str());
        push_str(&mut out, " done | ");
        let c = decimal_string(errors as u128);
        push_str(&mut out, c.as_str());
        push_str(&mut out, " errors\n");
        out
    }

    /// The boxed feed: the ten newest events with the milliseconds since
    /// the feed started, then the totals. A shown message longer than 40
    /// bytes must have a character boundary at byte 37.
    pub fn render(&self) -> (r: String)
        requires
            forall|i: int|
                self.log().len() - 10 <= i < self.log().len() && 0 <= i ==> cuts_cleanly(
                    #[trigger] self.log()[i].message@,
                ),
        ensures
            exists|ms: Seq<u128>| ms.len() == self.log().len() && r@ == feed_text(self.log(), ms),
    {
        let mut ms: Vec<u128> = Vec::new();
        let mut i: usize = 0;
        while i < self.events.len()
            invariant
                i <= self.events.len(),
                ms@.len() == i,
            decreases self.events.len() - i,
        {
            let d = duration_since(&self.events[i].timestamp, &self.started_at);
            ms.push(as_millis(&d));
            i += 1;
        }
        self.render_with_elapsed(ms.as_slice())
    }

    /// The feed on one line: each event as `source(n)`, `source:✗` or
    /// `source:symbol`, joined with arrows.
    pub fn render_compact(&self) -> (r: String)
        ensures
            r@ == compact_text(self.log()),
    {
        let mut parts: Vec<String> = Vec::new();
        let mut i: usize = 0;
        while i < self.events.len()
            invariant
                i <= self.events.len(),
                views(parts@) == self.events@.take(i as int).map_values(
                    |e: ResearchEvent| compact_part(e),
                ),
            decreases self.events.len() - i,
        {
            let e = &self.events[i];
            let mut p = e.source.clone();
            match &e.status {
                ResearchStatus::Done(n) => {
                    push_str(&mut p, "(");
                    let d = decimal_string(*n as u128);
                    push_str(&mut p, d.as_str());
                    push_str(&mut p, ")");
                },
                ResearchStatus::Error(_) => {
                    push_str(&mut p, ":✗");
                },
                _ => {
                    push_str(&mut p, ":");
                    let st = e.status.to_string();
                    push_str(&mut p, st.as_str());
                },
            }
            assert(p@ == compact_part(self.events@[i as int]));
            let ghost before = parts@;
            parts.push(p);
            assert(views(parts@) =~= views(before).push(compact_part(self.events@[i as int])));
            assert(self.events@.take(i + 1) =~= self.events@.take(i as int).push(self.events@[i as int]));
            i += 1;
            assert(views(parts@) =~= self.events@.take(i as int).map_values(
                |e: ResearchEvent| compact_part(e),
            ));
        }
        assert(self.events@.take(i as int) =~= self.events@);
        let joined = join_exec(&parts, " → ");
        let mut out = to_owned("Research: ");
        push_str(&mut out, joined.as_str());
        out
    }
}

} // verus!
