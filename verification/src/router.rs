//! Model routing vocabulary, and the text helpers of the providers:
//! model-name mapping, token estimates and stream chunking.
use vstd::prelude::*;

use crate::provider::Turn;
use crate::text::{byte_len, byte_len_exact, chars_of, str_eq, string_from, to_owned, views};

verus! {

/// How complex a task is; drives model selection.
#[derive(Debug, Clone, Copy, PartialEq, Eq, Structural, PartialOrd)]
pub enum TaskComplexity {
    /// Pattern match, lookup, simple edit.
    Trivial,
    /// Single-file edit, well-defined task.
    Routine,
    /// Multi-file or architecturally significant.
    Complex,
    /// Cross-system design or novel problem.
    Expert,
}

/// What matters when picking a model.
#[derive(Debug, Clone, Copy, PartialEq, Eq, Structural)]
pub enum ScoringCriteria {
    /// Cheapest model above the quality floor.
    Cost,
    /// Fastest model above the quality floor.
    Speed,
    /// Best model regardless of cost.
    Quality,
}

/// How the health monitor routes requests.
#[derive(Debug, Clone, Copy, PartialEq, Eq, Structural)]
pub enum RoutingMode {
    CostOptimized,
    SpeedOptimized,
    QualityOptimized,
    Balanced,
}

/// A provider's model name for a model: the name itself.
pub fn identity_model(name: &str) -> (r: String)
    ensures
        r@ == name@,
{
    to_owned(name)
}

/// DeepSeek's model name: `r1` is the reasoner, anything else the chat
/// model.
pub fn deepseek_model_map(name: &str) -> (r: String)
    ensures
        r@ == (if name@ == "r1"@ {
            "deepseek-reasoner"@
        } else {
            "deepseek-chat"@
        }),
{
    if str_eq(name, "r1") {
        to_owned("deepseek-reasoner")
    } else {
        to_owned("deepseek-chat")
    }
}

/// A token estimate for a text: a token per four bytes of its length
/// taken as a `u32`, plus four.
pub open spec fn str_tokens(s: Seq<char>) -> u32 {
    ((byte_len(s) as u32) / 4 + 4) as u32
}

/// The token estimate of a text.
pub fn estimate_str_tokens(s: &str) -> (r: u32)
    ensures
        r == str_tokens(s@),
{
    let cs = chars_of(s);
    let n = byte_len_exact(&cs);
    let m = n as u32;
    m / 4 + 4
}

/// The token estimate of a conversation: the sum of the estimates of its
/// messages.
pub open spec fn turns_tokens(ts: Seq<Turn>) -> int
    decreases ts.len(),
{
    if ts.len() == 0 {
        0
    } else {
        turns_tokens(ts.drop_last()) + str_tokens(ts.last().content@)
    }
}

/// The token estimate of a conversation.
pub fn estimate_tokens(turns: &[Turn]) -> (r: u32)
    requires
        turns_tokens(turns@) <= u32::MAX,
    ensures
        r == turns_tokens(turns@),
{
    let mut total: u32 = 0;
    let mut i: usize = 0;
    while i < turns.len()
        invariant
            i <= turns@.len(),
            total == turns_tokens(turns@.take(i as int)),
            turns_tokens(turns@) <= u32::MAX,
        decreases turns.len() - i,
    {
        proof {
            assert(turns@.take(i + 1).drop_last() =~= turns@.take(i as int));
            assert(turns@.take(i + 1).last() == turns@[i as int]);
            lemma_turns_tokens_prefix(turns@, i + 1);
        }
        total = total + estimate_str_tokens(turns[i].content.as_str());
        i += 1;
    }
    assert(turns@.take(i as int) =~= turns@);
    total
}

/// A prefix of a conversation is estimated at no more than the whole.
proof fn lemma_turns_tokens_prefix(ts: Seq<Turn>, k: int)
    requires
        0 <= k <= ts.len(),
    ensures
        turns_tokens(ts.take(k)) <= turns_tokens(ts),
    decreases ts.len() - k,
{
    if k < ts.len() {
        lemma_turns_tokens_prefix(ts, k + 1);
        assert(ts.take(k + 1).drop_last() =~= ts.take(k));
    } else {
        assert(ts.take(k) =~= ts);
    }
}

/// A text cut into pieces of `size` characters (at least one), the last
/// piece holding what is left; an empty text is one empty piece.
pub open spec fn chunks(s: Seq<char>, size: nat) -> Seq<Seq<char>>
    decreases s.len(),
{
    let m = if size == 0 {
        1
    } else {
        size
    };
    if s.len() <= m {
        seq![s]
    } else {
        seq![s.take(m as int)] + chunks(s.skip(m as int), size)
    }
}

/// Cut a text into pieces of `size` characters for streaming.
pub fn chunk_string(s: &str, size: usize) -> (r: Vec<String>)
    ensures
        views(r@) == chunks(s@, size as nat),
{
    let cs = chars_of(s);
    let n = cs.len();
    let m: usize = if size == 0 {
        1
    } else {
        size
    };
    let mut out: Vec<String> = Vec::new();
    let mut i: usize = 0;
    assert(cs@.skip(0) =~= cs@);
    while n - i > m
        invariant
            i <= n == cs@.len(),
            m >= 1,
            m == (if size == 0 {
                1
            } else {
                size
            }),
            cs@ == s@,
            views(out@) + chunks(cs@.skip(i as int), size as nat) == chunks(s@, size as nat),
        decreases n - i,
    {
        let ghost before = out@;
        let ghost rest = cs@.skip(i as int);
        let piece = string_from(&cs, i, i + m);
        proof {
            assert(piece@ =~= rest.take(m as int));
            assert(rest.skip(m as int) =~= cs@.skip(i + m));
        }
        out.push(piece);
        assert(views(out@) =~= views(before).push(piece@));
        assert(views(out@) + chunks(cs@.skip(i + m), size as nat) =~= views(before) + chunks(rest, size as nat));
        i = i + m;
    }
    let ghost before = out@;
    let last = string_from(&cs, i, n);
    assert(last@ =~= cs@.skip(i as int));
    out.push(last);
    assert(views(out@) =~= views(before).push(last@));
    assert(views(out@) =~= views(before) + chunks(cs@.skip(i as int), size as nat));
    out
}

/// The pieces of a text put back together.
pub open spec fn concat_all(ps: Seq<Seq<char>>) -> Seq<char>
    decreases ps.len(),
{
    if ps.len() == 0 {
        seq![]
    } else {
        ps[0] + concat_all(ps.skip(1))
    }
}

/// Streaming a text in chunks loses nothing: the chunks put back
/// together are the text, none is longer than the chunk size (at least
/// one), and none is empty unless the text is.
pub proof fn lemma_chunks_reassemble(s: Seq<char>, size: nat)
    ensures
        concat_all(chunks(s, size)) == s,
        forall|i: int|
            0 <= i < chunks(s, size).len() ==> #[trigger] chunks(s, size)[i].len() <= (if size
                == 0 {
                1
            } else {
                size
            }),
        s.len() > 0 ==> forall|i: int|
            0 <= i < chunks(s, size).len() ==> #[trigger] chunks(s, size)[i].len() > 0,
    decreases s.len(),
{
    let m: nat = if size == 0 {
        1
    } else {
        size
    };
    if s.len() <= m {
        let c = chunks(s, size);
        assert(c.skip(1) =~= Seq::<Seq<char>>::empty());
        assert(concat_all(c.skip(1)) == Seq::<char>::empty());
        assert(c[0] + Seq::<char>::empty() =~= s);
    } else {
        let rest = s.skip(m as int);
        lemma_chunks_reassemble(rest, size);
        let c = chunks(s, size);
        assert(c.skip(1) =~= chunks(rest, size));
        assert(s.take(m as int) + rest =~= s);
        assert(c[0] == s.take(m as int));
        assert(concat_all(c) == c[0] + concat_all(c.skip(1)));
        assert forall|i: int| 0 <= i < c.len() implies #[trigger] c[i].len() <= m by {
            if i > 0 {
                assert(c[i] == chunks(rest, size)[i - 1]);
            }
        }
        assert forall|i: int| 0 <= i < c.len() implies #[trigger] c[i].len() > 0 by {
            if i > 0 {
                assert(c[i] == chunks(rest, size)[i - 1]);
            }
        }
    }
}

} // verus!
