//! Versions of the profile: a bounded history of snapshots and the audit
//! trail that lists the latest ones.
use vstd::prelude::*;

use crate::profile::PinnedContext;
use crate::text::{
    chars_of, decimal, decimal_string, join, join_exec, lines, pad_right, pad_right_exec, push_str,
    str_lines, string_from, to_owned, views,
};

verus! {

/// How many versions the history keeps.
pub const MAX_VERSIONS: usize = 50;

/// A saved state of the profile; its time is in milliseconds since the
/// Unix epoch.
#[derive(Debug, Clone)]
pub struct ProfileVersion {
    pub version: u64,
    pub timestamp: i64,
    pub snapshot: String,
    pub change_type: String,
}

/// The current time in milliseconds since the Unix epoch
/// (`chrono::Utc::now`, then `DateTime::timestamp_millis`). Nothing is
/// stated of it: it is the clock.
#[verifier::external_body]
fn now_millis() -> i64 {
    chrono::Utc::now().timestamp_millis()
}

/// A number below a hundred in two digits.
pub open spec fn two_digits(n: nat) -> Seq<char> {
    if n < 10 {
        "0"@ + decimal(n)
    } else {
        decimal(n)
    }
}

/// The milliseconds since midnight, UTC, of an instant.
pub open spec fn day_millis(ms: int) -> int {
    ms % 86_400_000
}

/// The UTC time of day of an instant as `HH:MM`.
pub open spec fn clock(ms: int) -> Seq<char> {
    let d = day_millis(ms);
    two_digits((d / 3_600_000) as nat) + ":"@ + two_digits(((d % 3_600_000) / 60_000) as nat)
}

/// The audit trail line of a version: its number, its time of day and
/// what changed.
pub open spec fn audit_line(v: ProfileVersion) -> Seq<char> {
    "v"@ + decimal(v.version as nat) + " ["@ + clock(v.timestamp as int) + "] "@ + v.change_type@
}

/// The last `n` versions, all of them when there are fewer.
pub open spec fn latest(vs: Seq<ProfileVersion>, n: nat) -> Seq<ProfileVersion> {
    if vs.len() > n {
        vs.skip(vs.len() - n)
    } else {
        vs
    }
}

/// The audit trail lines of versions, in order.
pub open spec fn audit_lines(vs: Seq<ProfileVersion>) -> Seq<Seq<char>> {
    vs.map_values(|v: ProfileVersion| audit_line(v))
}

fn two_digits_exec(n: u128) -> (r: String)
    requires
        n < 100,
    ensures
        r@ == two_digits(n as nat),
{
    let d = decimal_string(n);
    if n < 10 {
        let mut s = to_owned("0");
        push_str(&mut s, d.as_str());
        s
    } else {
        d
    }
}

/// The UTC time of day of an instant as `HH:MM`.
pub fn clock_text(ms: i64) -> (r: String)
    ensures
        r@ == clock(ms as int),
{
    let t: i128 = ms as i128 + 17_280_000_000_000_000_000i128;
    proof {
        vstd::arithmetic::div_mod::lemma_mod_multiples_vanish(200_000_000_000, ms as int, 86_400_000);
        assert(86_400_000 * 200_000_000_000 == 17_280_000_000_000_000_000int);
    }
    let d: u128 = (t as u128) % 86_400_000;
    assert(d == day_millis(ms as int));
    let h = d / 3_600_000;
    let m = (d % 3_600_000) / 60_000;
    let mut s = two_digits_exec(h);
    push_str(&mut s, ":");
    let mm = two_digits_exec(m);
    push_str(&mut s, mm.as_str());
    s
}

/// A bounded history of profile versions, oldest first.
pub struct ProfileVersioner {
    history: Vec<ProfileVersion>,
    base_path: String,
}

impl ProfileVersioner {
    /// The versions kept, oldest first.
    pub closed spec fn versions(&self) -> Seq<ProfileVersion> {
        self.history@
    }

    /// Where the profiles are kept.
    pub closed spec fn base(&self) -> Seq<char> {
        self.base_path@
    }

    /// A history keeps no more than its bound.
    #[verifier::type_invariant]
    spec fn within_bound(&self) -> bool {
        self.history@.len() <= MAX_VERSIONS
    }

    /// How many versions are kept.
    pub fn len(&self) -> (r: usize)
        ensures
            r == self.versions().len(),
            r <= MAX_VERSIONS,
    {
        proof {
            use_type_invariant(self);
        }
        self.history.len()
    }

    /// An empty history for profiles kept under `base_path`.
    pub fn new(base_path: &str) -> (r: Self)
        ensures
            r.versions() == Seq::<ProfileVersion>::empty(),
            r.base() == base_path@,
    {
        ProfileVersioner { history: Vec::new(), base_path: to_owned(base_path) }
    }

    /// Save a snapshot of the profile as the newest version and return
    /// its number, one more than the number of versions kept before; the
    /// oldest version goes once the history is full.
    pub fn save_version(&mut self, snapshot: String, change_type: &str) -> (r: u64)
        ensures
            final(self).base() == old(self).base(),
            final(self).versions().len() <= MAX_VERSIONS,
            r == old(self).versions().len() + 1,
            final(self).versions().len() > 0,
            final(self).versions().drop_last() == (if old(self).versions().len() == MAX_VERSIONS {
                old(self).versions().drop_first()
            } else {
                old(self).versions()
            }),
            final(self).versions().last().version == r,
            final(self).versions().last().snapshot@ == snapshot@,
            final(self).versions().last().change_type@ == change_type@,
    {
        proof {
            use_type_invariant(&*self);
        }
        let version = (self.history.len() + 1) as u64;
        let timestamp = now_millis();
        let mut history: Vec<ProfileVersion> = Vec::new();
        std::mem::swap(&mut history, &mut self.history);
        history.push(
            ProfileVersion { version, timestamp, snapshot, change_type: to_owned(change_type) },
        );
        if history.len() > MAX_VERSIONS {
            history.remove(0);
        }
        self.history = history;
        version
    }

    /// The audit trail of the last `last_n` versions, one line each.
    pub fn audit_trail(&self, last_n: usize) -> (r: String)
        ensures
            r@ == join(audit_lines(latest(self.versions(), last_n as nat)), "\n"@),
    {
        let start = if self.history.len() > last_n {
            self.history.len() - last_n
        } else {
            0
        };
        let mut lines: Vec<String> = Vec::new();
        let mut i = start;
        while i < self.history.len()
            invariant
                start <= i <= self.history@.len(),
                views(lines@) == audit_lines(self.history@.subrange(start as int, i as int)),
            decreases self.history.len() - i,
        {
            let v = &self.history[i];
            let mut line = to_owned("v");
            let n = decimal_string(v.version as u128);
            push_str(&mut line, n.as_str());
            push_str(&mut line, " [");
            let c = clock_text(v.timestamp);
            push_str(&mut line, c.as_str());
            push_str(&mut line, "] ");
            push_str(&mut line, v.change_type.as_str());
            assert(line@ == audit_line(*v));
            let ghost before = lines@;
            lines.push(line);
            proof {
                let sub = self.history@.subrange(start as int, i as int);
                let sub1 = self.history@.subrange(start as int, i + 1);
                assert(sub1 =~= sub.push(*v));
                assert(views(before).len() == before.len());
                assert(before.len() == sub.len());
                assert(lines@.len() == sub1.len());
                assert forall|j: int| 0 <= j < lines@.len() implies #[trigger] views(lines@)[j]
                    == audit_lines(sub1)[j] by {
                    if j < before.len() {
                        assert(views(before)[j] == audit_lines(sub)[j]);
                        assert(sub1[j] == sub[j]);
                    }
                }
                assert(views(lines@) =~= audit_lines(sub1));
            }
            i += 1;
        }
        assert(self.history@.subrange(start as int, i as int) =~= latest(self.history@, last_n as nat));
        join_exec(&lines, "\n")
    }
}


/// A fact as the memory panel shows it: its confidence in percent and
/// its text.
#[derive(Debug, Clone)]
pub struct PanelFact {
    pub confidence_pct: usize,
    pub text: String,
}

/// At most the first `n` characters of a text.
pub open spec fn clip(s: Seq<char>, n: nat) -> Seq<char> {
    if s.len() > n {
        s.take(n as int)
    } else {
        s
    }
}

/// The panel row of a fact.
pub open spec fn fact_row(f: PanelFact) -> Seq<char> {
    "│ ["@ + decimal(f.confidence_pct as nat) + "%] "@ + clip(f.text@, 45) + " │\n"@
}

/// The panel rows of facts, in order.
pub open spec fn fact_rows(fs: Seq<PanelFact>) -> Seq<char>
    decreases fs.len(),
{
    if fs.len() == 0 {
        seq![]
    } else {
        fact_rows(fs.drop_last()) + fact_row(fs.last())
    }
}

/// The panel rows of audit trail lines, in order.
pub open spec fn audit_rows(ls: Seq<Seq<char>>) -> Seq<char>
    decreases ls.len(),
{
    if ls.len() == 0 {
        seq![]
    } else {
        audit_rows(ls.drop_last()) + "│ "@ + pad_right(ls.last(), 45) + " │\n"@
    }
}

/// The facts the panel lists: the first five.
pub open spec fn listed(fs: Seq<PanelFact>) -> Seq<PanelFact> {
    if fs.len() > 5 {
        fs.take(5)
    } else {
        fs
    }
}

/// The memory panel: counts of facts, stacks, interests and pins, the
/// first five facts, how many more there are, and the audit trail.
pub open spec fn memory_panel(
    facts: Seq<PanelFact>,
    stacks: nat,
    interests: nat,
    pinned: nat,
    audit: Seq<char>,
) -> Seq<char> {
    "\n┌─ Memory Panel ────────────────────────────────┐\n"@ + "│ Facts: "@ + decimal(facts.len()) + " | Stacks: "@ + decimal(stacks)
        + " | Interests: "@ + decimal(interests) + "       │\n"@ + "│ Pinned: "@ + decimal(pinned)
        + "                                    │\n"@ + fact_rows(listed(facts)) + (if facts.len() > 5 {
        "│ ... and "@ + decimal((facts.len() - 5) as nat) + " more facts                         │\n"@
    } else {
        seq![]
    }) + "│                                               │\n"@
        + "│ Audit trail:                                  │\n"@ + audit_rows(lines(audit))
        + "└─────────────────────────────────────────────────┘\n"@
}

/// At most the first `n` characters of a text.
fn clip_exec(s: &str, n: usize) -> (r: String)
    ensures
        r@ == clip(s@, n as nat),
{
    let cs = chars_of(s);
    if cs.len() > n {
        string_from(&cs, 0, n)
    } else {
        assert(cs@.subrange(0, cs@.len() as int) =~= cs@);
        string_from(&cs, 0, cs.len())
    }
}

/// The memory panel of a profile: its facts (with their confidence in
/// percent), how many stacks and interests it has, what is pinned, and
/// the last three versions.
pub fn memory_panel_render(
    facts: &[PanelFact],
    stack_count: usize,
    interest_count: usize,
    pins: &PinnedContext,
    versioner: &ProfileVersioner,
) -> (r: String)
    ensures
        r@ == memory_panel(
            facts@,
            stack_count as nat,
            interest_count as nat,
            pins.facts@.len(),
            join(audit_lines(latest(versioner.versions(), 3)), "\n"@),
        ),
{
    let mut out = to_owned("\n┌─ Memory Panel ────────────────────────────────┐\n");
    push_str(&mut out, "│ Facts: ");
    push_str(&mut out, decimal_string(facts.len() as u128).as_str());
    push_str(&mut out, " | Stacks: ");
    push_str(&mut out, decimal_string(stack_count as u128).as_str());
    push_str(&mut out, " | Interests: ");
    push_str(&mut out, decimal_string(interest_count as u128).as_str());
    push_str(&mut out, "       │\n");
    push_str(&mut out, "│ Pinned: ");
    push_str(&mut out, decimal_string(pins.facts.len() as u128).as_str());
    push_str(&mut out, "                                    │\n");
    let ghost head = out@;
    let shown = if facts.len() > 5 {
        5
    } else {
        facts.len()
    };
    let mut i: usize = 0;
    while i < shown
        invariant
            i <= shown <= facts@.len(),
            shown == listed(facts@).len(),
            out@ == head + fact_rows(facts@.take(i as int)),
        decreases shown - i,
    {
        let f = &facts[i];
        push_str(&mut out, "│ [");
        push_str(&mut out, decimal_string(f.confidence_pct as u128).as_str());
        push_str(&mut out, "%] ");
        push_str(&mut out, clip_exec(f.text.as_str(), 45).as_str());
        push_str(&mut out, " │\n");
        proof {
            assert(facts@.take(i + 1).drop_last() =~= facts@.take(i as int));
            assert(facts@.take(i + 1).last() == facts@[i as int]);
        }
        i += 1;
    }
    assert(facts@.take(shown as int) =~= listed(facts@));
    if facts.len() > 5 {
        push_str(&mut out, "│ ... and ");
        push_str(&mut out, decimal_string((facts.len() - 5) as u128).as_str());
        push_str(&mut out, " more facts                         │\n");
    }
    push_str(&mut out, "│                                               │\n");
    push_str(&mut out, "│ Audit trail:                                  │\n");
    let trail = versioner.audit_trail(3);
    let ls = str_lines(trail.as_str());
    let ghost mid = out@;
    let mut k: usize = 0;
    while k < ls.len()
        invariant
            k <= ls.len(),
            views(ls@) == lines(trail@),
            out@ == mid + audit_rows(views(ls@).take(k as int)),
        decreases ls.len() - k,
    {
        push_str(&mut out, "│ ");
        push_str(&mut out, pad_right_exec(ls[k].as_str(), 45).as_str());
        push_str(&mut out, " │\n");
        proof {
            assert(views(ls@).take(k + 1).drop_last() =~= views(ls@).take(k as int));
            assert(views(ls@).take(k + 1).last() == ls@[k as int]@);
        }
        k += 1;
    }
    assert(views(ls@).take(k as int) =~= views(ls@));
    push_str(&mut out, "└─────────────────────────────────────────────────┘\n");
    out
}

} // verus!
