//! Line diffs: longest common subsequence, edit scripts, unified output,
//! and applying an edit script.
use vstd::prelude::*;

use crate::text::{decimal, decimal_string, lines, push_char, push_str, str_lines, to_owned, views};

verus! {

/// One line of an edit script.
#[derive(Debug, Clone)]
pub enum DiffLine {
    /// A line present in both texts.
    Context(String),
    /// A line only in the new text.
    Addition(String),
    /// A line only in the old text.
    Deletion(String),
}

/// A line of an edit script, as a mathematical value.
pub ghost enum Edit {
    Keep(Seq<char>),
    Add(Seq<char>),
    Del(Seq<char>),
}

impl View for DiffLine {
    type V = Edit;

    open spec fn view(&self) -> Edit {
        match self {
            DiffLine::Context(s) => Edit::Keep(s@),
            DiffLine::Addition(s) => Edit::Add(s@),
            DiffLine::Deletion(s) => Edit::Del(s@),
        }
    }
}

/// A group of edit-script lines.
#[derive(Debug, Clone)]
pub struct DiffHunk {
    pub file_path: String,
    pub old_start: usize,
    pub new_start: usize,
    pub header: String,
    pub lines: Vec<DiffLine>,
}

/// The edits of a sequence of diff lines.
pub open spec fn edits(ls: Seq<DiffLine>) -> Seq<Edit> {
    ls.map_values(|l: DiffLine| l@)
}

// ---------------------------------------------------------------------
// Longest common subsequence
// ---------------------------------------------------------------------

/// Length of a longest common subsequence of `a[..i]` and `b[..j]`.
pub open spec fn lcs_len(a: Seq<Seq<char>>, b: Seq<Seq<char>>, i: int, j: int) -> nat
    decreases i + j,
{
    if i <= 0 || j <= 0 {
        0
    } else if a[i - 1] == b[j - 1] {
        lcs_len(a, b, i - 1, j - 1) + 1
    } else {
        let x = lcs_len(a, b, i - 1, j);
        let y = lcs_len(a, b, i, j - 1);
        if x >= y {
            x
        } else {
            y
        }
    }
}

/// `ps` pairs equal elements of `a` and `b` at strictly increasing
/// positions on both sides: a common subsequence of `a` and `b`.
pub open spec fn is_common(a: Seq<Seq<char>>, b: Seq<Seq<char>>, ps: Seq<(usize, usize)>) -> bool {
    &&& forall|k: int|
        0 <= k < ps.len() ==> (#[trigger] ps[k]).0 < a.len() && ps[k].1 < b.len() && a[ps[k].0 as int]
            == b[ps[k].1 as int]
    &&& forall|k1: int, k2: int|
        0 <= k1 < k2 < ps.len() ==> (#[trigger] ps[k1]).0 < (#[trigger] ps[k2]).0 && ps[k1].1
            < ps[k2].1
}

/// The longest common subsequence the table walk finds, as index pairs
/// in increasing order: from the end, equal lines are paired; otherwise
/// the walk drops the last line of `a` when that keeps a strictly longer
/// subsequence, and the last line of `b` when not.
pub open spec fn lcs_pairs(a: Seq<Seq<char>>, b: Seq<Seq<char>>, i: int, j: int) -> Seq<(usize, usize)>
    decreases i + j,
{
    if i <= 0 || j <= 0 {
        seq![]
    } else if a[i - 1] == b[j - 1] {
        lcs_pairs(a, b, i - 1, j - 1).push(((i - 1) as usize, (j - 1) as usize))
    } else if lcs_len(a, b, i - 1, j) > lcs_len(a, b, i, j - 1) {
        lcs_pairs(a, b, i - 1, j)
    } else {
        lcs_pairs(a, b, i, j - 1)
    }
}

/// The pairs the walk finds form a common subsequence of the prefixes,
/// of the longest length.
pub proof fn lemma_lcs_pairs(a: Seq<Seq<char>>, b: Seq<Seq<char>>, i: int, j: int)
    requires
        0 <= i <= a.len(),
        0 <= j <= b.len(),
        a.len() <= usize::MAX,
        b.len() <= usize::MAX,
    ensures
        is_common(a, b, lcs_pairs(a, b, i, j)),
        lcs_pairs(a, b, i, j).len() == lcs_len(a, b, i, j),
        forall|k: int|
            0 <= k < lcs_pairs(a, b, i, j).len() ==> (#[trigger] lcs_pairs(a, b, i, j)[k]).0 < i
                && lcs_pairs(a, b, i, j)[k].1 < j,
    decreases i + j,
{
    if i > 0 && j > 0 {
        if a[i - 1] == b[j - 1] {
            lemma_lcs_pairs(a, b, i - 1, j - 1);
            let prev = lcs_pairs(a, b, i - 1, j - 1);
            let ps = lcs_pairs(a, b, i, j);
            assert(ps == prev.push(((i - 1) as usize, (j - 1) as usize)));
            assert forall|k: int| 0 <= k < ps.len() implies (#[trigger] ps[k]).0 < a.len() && ps[k].1 < b.len()
                && a[ps[k].0 as int] == b[ps[k].1 as int] by {
                if k < prev.len() {
                    assert(ps[k] == prev[k]);
                }
            }
            assert forall|k1: int, k2: int| 0 <= k1 < k2 < ps.len() implies (#[trigger] ps[k1]).0 < (
            #[trigger] ps[k2]).0 && ps[k1].1 < ps[k2].1 by {
                assert(ps[k1] == prev[k1]);
                if k2 < prev.len() {
                    assert(ps[k2] == prev[k2]);
                }
            }
            assert forall|k: int| 0 <= k < ps.len() implies (#[trigger] ps[k]).0 < i && ps[k].1 < j by {
                if k < prev.len() {
                    assert(ps[k] == prev[k]);
                }
            }
        } else if lcs_len(a, b, i - 1, j) > lcs_len(a, b, i, j - 1) {
            lemma_lcs_pairs(a, b, i - 1, j);
        } else {
            lemma_lcs_pairs(a, b, i, j - 1);
        }
    }
}

/// `lcs_len` is bounded by both prefix lengths.
pub proof fn lemma_lcs_bound(a: Seq<Seq<char>>, b: Seq<Seq<char>>, i: int, j: int)
    requires
        0 <= i,
        0 <= j,
    ensures
        lcs_len(a, b, i, j) <= i,
        lcs_len(a, b, i, j) <= j,
    decreases i + j,
{
    if i > 0 && j > 0 {
        lemma_lcs_bound(a, b, i - 1, j - 1);
        lemma_lcs_bound(a, b, i - 1, j);
        lemma_lcs_bound(a, b, i, j - 1);
    }
}

/// A common subsequence of `a[..i]` and `b[..j]` is no longer than
/// `lcs_len(a, b, i, j)`.
proof fn lemma_common_within(a: Seq<Seq<char>>, b: Seq<Seq<char>>, ps: Seq<(usize, usize)>, i: int, j: int)
    requires
        0 <= i <= a.len(),
        0 <= j <= b.len(),
        is_common(a, b, ps),
        forall|k: int| 0 <= k < ps.len() ==> (#[trigger] ps[k]).0 < i && ps[k].1 < j,
    ensures
        ps.len() <= lcs_len(a, b, i, j),
    decreases i + j,
{
    if ps.len() > 0 {
        let n = ps.len() - 1;
        let last = ps[n];
        let rest = ps.drop_last();
        assert(is_common(a, b, rest)) by {
            assert forall|k: int| 0 <= k < rest.len() implies (#[trigger] rest[k]).0 < a.len() && rest[k].1
                < b.len() && a[rest[k].0 as int] == b[rest[k].1 as int] by {
                assert(rest[k] == ps[k]);
            }
            assert forall|k1: int, k2: int| 0 <= k1 < k2 < rest.len() implies (#[trigger] rest[k1]).0 < (
            #[trigger] rest[k2]).0 && rest[k1].1 < rest[k2].1 by {
                assert(rest[k1] == ps[k1] && rest[k2] == ps[k2]);
            }
        }
        if a[i - 1] == b[j - 1] {
            assert forall|k: int| 0 <= k < rest.len() implies (#[trigger] rest[k]).0 < i - 1 && rest[k].1 < j - 1 by {
                assert(rest[k] == ps[k]);
                assert(ps[k].0 < ps[n].0 && ps[k].1 < ps[n].1);
            }
            lemma_common_within(a, b, rest, i - 1, j - 1);
        } else if (last.0 as int) < i - 1 {
            assert forall|k: int| 0 <= k < ps.len() implies (#[trigger] ps[k]).0 < i - 1 && ps[k].1 < j by {
                if k < n {
                    assert(ps[k].0 < ps[n].0);
                }
            }
            lemma_common_within(a, b, ps, i - 1, j);
        } else {
            assert(last.1 as int != j - 1);
            assert forall|k: int| 0 <= k < ps.len() implies (#[trigger] ps[k]).0 < i && ps[k].1 < j - 1 by {
                if k < n {
                    assert(ps[k].1 < ps[n].1);
                }
            }
            lemma_common_within(a, b, ps, i, j - 1);
        }
    }
}

/// `lcs_len` is the length of a longest common subsequence: no common
/// subsequence of `a` and `b` is longer.
pub proof fn lemma_lcs_is_longest(a: Seq<Seq<char>>, b: Seq<Seq<char>>, ps: Seq<(usize, usize)>)
    requires
        is_common(a, b, ps),
    ensures
        ps.len() <= lcs_len(a, b, a.len() as int, b.len() as int),
{
    lemma_common_within(a, b, ps, a.len() as int, b.len() as int);
}

/// The views of a slice of strings.
pub open spec fn slice_views(v: Seq<String>) -> Seq<Seq<char>> {
    v.map_values(|s: String| s@)
}

/// One row of the LCS table: `row[j] == lcs_len(a, b, i, j)`.
fn lcs_row(a: &[String], b: &[String], i: usize, prev: &Vec<usize>) -> (row: Vec<usize>)
    requires
        1 <= i <= a.len(),
        prev.len() == b.len() + 1,
        forall|j: int| 0 <= j <= b.len() ==> prev@[j] == lcs_len(slice_views(a@), slice_views(b@), i - 1, j),
    ensures
        row.len() == b.len() + 1,
        forall|j: int| 0 <= j <= b.len() ==> row@[j] == lcs_len(slice_views(a@), slice_views(b@), i as int, j),
{
    let ghost va = slice_views(a@);
    let ghost vb = slice_views(b@);
    let mut row: Vec<usize> = Vec::new();
    row.push(0);
    let mut j: usize = 0;
    while j < b.len()
        invariant
            1 <= i <= a.len(),
            va == slice_views(a@),
            vb == slice_views(b@),
            prev.len() == b.len() + 1,
            forall|k: int| 0 <= k <= b.len() ==> prev@[k] == lcs_len(va, vb, i - 1, k),
            j <= b.len(),
            row.len() == j + 1,
            forall|k: int| 0 <= k <= j ==> row@[k] == lcs_len(va, vb, i as int, k),
        decreases b.len() - j,
    {
        proof {
            lemma_lcs_bound(va, vb, i - 1, j as int);
            assert(va[i - 1] == a@[i - 1]@);
            assert(vb[j as int] == b@[j as int]@);
        }
        let v = if a[i - 1] == b[j] {
            prev[j] + 1
        } else {
            let x = prev[j + 1];
            let y = row[j];
            if x >= y {
                x
            } else {
                y
            }
        };
        row.push(v);
        j += 1;
    }
    row
}

/// A longest common subsequence of `a` and `b`, as pairs of indices
/// `(index in a, index in b)`, in increasing order.
pub fn longest_common_subsequence(a: &[String], b: &[String]) -> (ps: Vec<(usize, usize)>)
    ensures
        ps@ == lcs_pairs(slice_views(a@), slice_views(b@), a.len() as int, b.len() as int),
        is_common(slice_views(a@), slice_views(b@), ps@),
        ps@.len() == lcs_len(slice_views(a@), slice_views(b@), a.len() as int, b.len() as int),
{
    let ghost va = slice_views(a@);
    let ghost vb = slice_views(b@);
    let m = a.len();
    let n = b.len();
    // The table, one row per prefix length of `a`.
    let mut dp: Vec<Vec<usize>> = Vec::new();
    let mut row0: Vec<usize> = Vec::new();
    row0.push(0);
    let mut j: usize = 0;
    while j < n
        invariant
            n == b.len(),
            j <= n,
            row0.len() == j + 1,
            forall|k: int| 0 <= k <= j ==> row0@[k] == lcs_len(va, vb, 0, k),
        decreases n - j,
    {
        row0.push(0);
        j += 1;
    }
    dp.push(row0);
    let mut i: usize = 0;
    while i < m
        invariant
            m == a.len(),
            n == b.len(),
            va == slice_views(a@),
            vb == slice_views(b@),
            i <= m,
            dp.len() == i + 1,
            forall|r: int| 0 <= r <= i ==> (#[trigger] dp@[r]).len() == n + 1,
            forall|r: int, c: int|
                #![trigger dp@[r]@[c]]
                0 <= r <= i && 0 <= c <= n ==> dp@[r]@[c] == lcs_len(va, vb, r, c),
        decreases m - i,
    {
        let row = lcs_row(a, b, i + 1, &dp[i]);
        dp.push(row);
        i += 1;
    }
    // Walk back from the full table.
    let mut rev: Vec<(usize, usize)> = Vec::new();
    let mut i: usize = m;
    let mut j: usize = n;
    while i > 0 && j > 0
        invariant
            m == a.len(),
            n == b.len(),
            va == slice_views(a@),
            vb == slice_views(b@),
            i <= m,
            j <= n,
            dp.len() == m + 1,
            forall|r: int| 0 <= r <= m ==> (#[trigger] dp@[r]).len() == n + 1,
            forall|r: int, c: int|
                #![trigger dp@[r]@[c]]
                0 <= r <= m && 0 <= c <= n ==> dp@[r]@[c] == lcs_len(va, vb, r, c),
            rev@.len() + lcs_len(va, vb, i as int, j as int) == lcs_len(va, vb, m as int, n as int),
            forall|k: int|
                0 <= k < rev@.len() ==> (#[trigger] rev@[k]).0 < m && rev@[k].1 < n && rev@[k].0
                    >= i && rev@[k].1 >= j && va[rev@[k].0 as int] == vb[rev@[k].1 as int],
            forall|k1: int, k2: int|
                0 <= k1 < k2 < rev@.len() ==> (#[trigger] rev@[k1]).0 > (#[trigger] rev@[k2]).0
                    && rev@[k1].1 > rev@[k2].1,
            lcs_pairs(va, vb, m as int, n as int) == lcs_pairs(va, vb, i as int, j as int) + rev@.reverse(),
        decreases i + j,
    {
        let ghost before = rev@;
        proof {
            assert(va[i - 1] == a@[i - 1]@);
            assert(vb[j - 1] == b@[j - 1]@);
        }
        if a[i - 1] == b[j - 1] {
            rev.push((i - 1, j - 1));
            proof {
                let x = ((i - 1) as usize, (j - 1) as usize);
                assert(rev@.reverse() =~= seq![x] + before.reverse());
                assert(lcs_pairs(va, vb, i as int, j as int) == lcs_pairs(va, vb, i - 1, j - 1).push(x));
                assert(lcs_pairs(va, vb, i - 1, j - 1).push(x) + before.reverse() =~= lcs_pairs(va, vb, i - 1, j - 1) + rev@.reverse());
            }
            i -= 1;
            j -= 1;
        } else if dp[i - 1][j] > dp[i][j - 1] {
            i -= 1;
        } else {
            j -= 1;
        }
    }
    proof {
        assert(lcs_len(va, vb, i as int, j as int) == 0);
        assert(lcs_pairs(va, vb, i as int, j as int) == Seq::<(usize, usize)>::empty());
        assert(lcs_pairs(va, vb, m as int, n as int) =~= rev@.reverse());
    }
    let mut ps: Vec<(usize, usize)> = Vec::new();
    let mut k: usize = rev.len();
    while k > 0
        invariant
            k <= rev@.len(),
            ps@.len() == rev@.len() - k,
            forall|t: int| 0 <= t < ps@.len() ==> ps@[t] == rev@[rev@.len() - 1 - t],
        decreases k,
    {
        k -= 1;
        ps.push(rev[k]);
    }
    proof {
        assert forall|k1: int, k2: int|
            0 <= k1 < k2 < ps@.len() implies (#[trigger] ps@[k1]).0 < (#[trigger] ps@[k2]).0
                && ps@[k1].1 < ps@[k2].1 by {
            assert(ps@[k1] == rev@[rev@.len() - 1 - k1]);
            assert(ps@[k2] == rev@[rev@.len() - 1 - k2]);
        }
        assert forall|t: int| 0 <= t < ps@.len() implies (#[trigger] ps@[t]).0 < va.len()
            && ps@[t].1 < vb.len() && va[ps@[t].0 as int] == vb[ps@[t].1 as int] by {
            assert(ps@[t] == rev@[rev@.len() - 1 - t]);
        }
        assert(ps@ =~= rev@.reverse());
    }
    ps
}

// ---------------------------------------------------------------------
// Edit scripts
// ---------------------------------------------------------------------

/// The edits between two matched positions: old lines `o[oi..oe]` and new
/// lines `n[ni..ne]`, a deletion and an addition in turn while both
/// remain, then the rest of whichever side is longer.
pub open spec fn gap(o: Seq<Seq<char>>, n: Seq<Seq<char>>, oi: int, ni: int, oe: int, ne: int) -> Seq<Edit>
    decreases (if oe > oi { oe - oi } else { 0 }) + (if ne > ni { ne - ni } else { 0 }),
{
    if oi < oe && ni < ne {
        seq![Edit::Del(o[oi]), Edit::Add(n[ni])] + gap(o, n, oi + 1, ni + 1, oe, ne)
    } else if oi < oe {
        seq![Edit::Del(o[oi])] + gap(o, n, oi + 1, ni, oe, ne)
    } else if ni < ne {
        seq![Edit::Add(n[ni])] + gap(o, n, oi, ni + 1, oe, ne)
    } else {
        seq![]
    }
}

/// The edit script that keeps the matched pairs `ps` (from old position
/// `oi` and new position `ni` on) and fills the gaps between them.
pub open spec fn script(o: Seq<Seq<char>>, n: Seq<Seq<char>>, ps: Seq<(usize, usize)>, oi: int, ni: int) -> Seq<Edit>
    decreases ps.len(),
{
    if ps.len() == 0 {
        gap(o, n, oi, ni, o.len() as int, n.len() as int)
    } else {
        gap(o, n, oi, ni, ps[0].0 as int, ps[0].1 as int) + seq![Edit::Keep(o[ps[0].0 as int])]
            + script(o, n, ps.drop_first(), ps[0].0 + 1, ps[0].1 + 1)
    }
}

/// The lines an edit script leaves in the old text.
pub open spec fn old_side(es: Seq<Edit>) -> Seq<Seq<char>>
    decreases es.len(),
{
    if es.len() == 0 {
        seq![]
    } else {
        let rest = old_side(es.drop_first());
        match es[0] {
            Edit::Keep(s) => seq![s] + rest,
            Edit::Del(s) => seq![s] + rest,
            Edit::Add(_) => rest,
        }
    }
}

/// The lines an edit script produces in the new text.
pub open spec fn new_side(es: Seq<Edit>) -> Seq<Seq<char>>
    decreases es.len(),
{
    if es.len() == 0 {
        seq![]
    } else {
        let rest = new_side(es.drop_first());
        match es[0] {
            Edit::Keep(s) => seq![s] + rest,
            Edit::Add(s) => seq![s] + rest,
            Edit::Del(_) => rest,
        }
    }
}

/// The number of kept lines in an edit script.
pub open spec fn kept_count(es: Seq<Edit>) -> nat
    decreases es.len(),
{
    if es.len() == 0 {
        0
    } else {
        kept_count(es.drop_first()) + if es[0] is Keep {
            1nat
        } else {
            0nat
        }
    }
}

/// Each line followed by a newline, concatenated.
pub open spec fn with_newlines(ls: Seq<Seq<char>>) -> Seq<char>
    decreases ls.len(),
{
    if ls.len() == 0 {
        seq![]
    } else {
        ls[0] + seq!['\n'] + with_newlines(ls.drop_first())
    }
}

/// The hunks `compute_diff` makes of an edit script: none when it is
/// empty, otherwise one unnamed hunk holding the whole script.
pub open spec fn hunks_of(hs: Seq<DiffHunk>, es: Seq<Edit>) -> bool {
    if es.len() == 0 {
        hs.len() == 0
    } else {
        &&& hs.len() == 1
        &&& hs[0].file_path@.len() == 0
        &&& hs[0].header@.len() == 0
        &&& hs[0].old_start == 0
        &&& hs[0].new_start == 0
        &&& edits(hs[0].lines@) == es
    }
}

/// Diff two texts line by line: the lines common to both (along a longest
/// common subsequence) are kept, the others deleted or added.
pub fn compute_diff(old: &str, new: &str) -> (hunks: Vec<DiffHunk>)
    ensures
        hunks_of(hunks@, script(lines(old@), lines(new@), line_matches(old@, new@), 0, 0)),
{
    let old_lines = str_lines(old);
    let new_lines = str_lines(new);
    let ghost o = lines(old@);
    let ghost nn = lines(new@);
    proof {
        assert(slice_views(old_lines@) =~= views(old_lines@));
        assert(slice_views(new_lines@) =~= views(new_lines@));
    }
    let lcs = longest_common_subsequence(old_lines.as_slice(), new_lines.as_slice());
    let ghost ps = lcs@;
    let mut current: Vec<DiffLine> = Vec::new();
    let mut old_idx: usize = 0;
    let mut new_idx: usize = 0;
    let mut k: usize = 0;
    assert(ps.skip(0) =~= ps);
    while k < lcs.len()
        invariant
            o == views(old_lines@),
            nn == views(new_lines@),
            o.len() == old_lines.len(),
            nn.len() == new_lines.len(),
            is_common(o, nn, ps),
            ps == lcs@,
            k <= lcs.len(),
            old_idx <= o.len(),
            new_idx <= nn.len(),
            k < lcs.len() ==> old_idx <= ps[k as int].0 && new_idx <= ps[k as int].1,
            k > 0 && k < lcs.len() ==> old_idx == ps[k - 1].0 + 1 && new_idx == ps[k - 1].1 + 1,
            script(o, nn, ps, 0, 0) == edits(current@) + script(o, nn, ps.skip(k as int), old_idx as int, new_idx as int),
        decreases lcs.len() - k,
    {
        let (oi, ni) = lcs[k];
        let ghost rest = ps.skip(k as int);
        let ghost before = edits(current@);
        proof {
            assert(rest[0] == ps[k as int]);
            assert(rest.drop_first() =~= ps.skip(k + 1));
        }
        while old_idx < oi || new_idx < ni
            invariant
                o == views(old_lines@),
                nn == views(new_lines@),
                oi < o.len(),
                ni < nn.len(),
                old_idx <= oi,
                new_idx <= ni,
                o.len() == old_lines.len(),
                nn.len() == new_lines.len(),
                script(o, nn, ps, 0, 0) == edits(current@) + gap(o, nn, old_idx as int, new_idx as int, oi as int, ni as int) + seq![Edit::Keep(o[oi as int])] + script(o, nn, ps.skip(k + 1), oi + 1, ni + 1),
            decreases (oi - old_idx) + (ni - new_idx),
        {
            let ghost cur = edits(current@);
            if old_idx < oi && new_idx < ni {
                let d = DiffLine::Deletion(old_lines[old_idx].clone());
                current.push(d);
                let ad = DiffLine::Addition(new_lines[new_idx].clone());
                current.push(ad);
                proof {
                    assert(edits(current@) =~= cur + seq![Edit::Del(o[old_idx as int]), Edit::Add(nn[new_idx as int])]);
                }
                old_idx += 1;
                new_idx += 1;
            } else if old_idx < oi {
                let d = DiffLine::Deletion(old_lines[old_idx].clone());
                current.push(d);
                proof {
                    assert(edits(current@) =~= cur + seq![Edit::Del(o[old_idx as int])]);
                }
                old_idx += 1;
            } else {
                let ad = DiffLine::Addition(new_lines[new_idx].clone());
                current.push(ad);
                proof {
                    assert(edits(current@) =~= cur + seq![Edit::Add(nn[new_idx as int])]);
                }
                new_idx += 1;
            }
        }
        let ghost cur = edits(current@);
        let c = DiffLine::Context(old_lines[old_idx].clone());
        current.push(c);
        proof {
            assert(edits(current@) =~= cur + seq![Edit::Keep(o[oi as int])]);
            assert(gap(o, nn, oi as int, ni as int, oi as int, ni as int).len() == 0);
        }
        old_idx += 1;
        new_idx += 1;
        k += 1;
    }
    let ghost tail_start = edits(current@);
    while old_idx < old_lines.len() || new_idx < new_lines.len()
        invariant
            o == views(old_lines@),
            nn == views(new_lines@),
            old_idx <= o.len(),
            new_idx <= nn.len(),
            script(o, nn, ps, 0, 0) == edits(current@) + gap(o, nn, old_idx as int, new_idx as int, o.len() as int, nn.len() as int),
        decreases (o.len() - old_idx) + (nn.len() - new_idx),
    {
        let ghost cur = edits(current@);
        if old_idx < old_lines.len() && new_idx < new_lines.len() {
            let d = DiffLine::Deletion(old_lines[old_idx].clone());
            current.push(d);
            let ad = DiffLine::Addition(new_lines[new_idx].clone());
            current.push(ad);
            proof {
                assert(edits(current@) =~= cur + seq![Edit::Del(o[old_idx as int]), Edit::Add(nn[new_idx as int])]);
            }
            old_idx += 1;
            new_idx += 1;
        } else if old_idx < old_lines.len() {
            let d = DiffLine::Deletion(old_lines[old_idx].clone());
            current.push(d);
            proof {
                assert(edits(current@) =~= cur + seq![Edit::Del(o[old_idx as int])]);
            }
            old_idx += 1;
        } else {
            let ad = DiffLine::Addition(new_lines[new_idx].clone());
            current.push(ad);
            proof {
                assert(edits(current@) =~= cur + seq![Edit::Add(nn[new_idx as int])]);
            }
            new_idx += 1;
        }
    }
    proof {
        assert(edits(current@) =~= script(o, nn, ps, 0, 0));
    }
    let mut hunks: Vec<DiffHunk> = Vec::new();
    if current.len() > 0 {
        hunks.push(
            DiffHunk {
                file_path: String::new(),
                old_start: 0,
                new_start: 0,
                header: String::new(),
                lines: current,
            },
        );
    }
    hunks
}

/// The lines two texts have in common, as the diff pairs them.
pub open spec fn line_matches(old: Seq<char>, new: Seq<char>) -> Seq<(usize, usize)> {
    lcs_pairs(lines(old), lines(new), lines(old).len() as int, lines(new).len() as int)
}

/// The text `apply_diff` produces from the hunks it is given.
pub open spec fn applied(original: Seq<char>, hs: Seq<DiffHunk>) -> Seq<char> {
    if hs.len() == 0 {
        original
    } else {
        with_newlines(new_side(edits(hs.last().lines@)))
    }
}

proof fn lemma_sides_one(e: Edit)
    ensures
        old_side(seq![e]) == (match e {
            Edit::Keep(x) => seq![x],
            Edit::Del(x) => seq![x],
            Edit::Add(_) => Seq::<Seq<char>>::empty(),
        }),
        new_side(seq![e]) == (match e {
            Edit::Keep(x) => seq![x],
            Edit::Add(x) => seq![x],
            Edit::Del(_) => Seq::<Seq<char>>::empty(),
        }),
        kept_count(seq![e]) == (if e is Keep { 1nat } else { 0nat }),
{
    let t = seq![e];
    assert(t.drop_first() =~= Seq::<Edit>::empty());
    assert(t[0] == e);
    assert(old_side(t.drop_first()) == Seq::<Seq<char>>::empty());
    assert(new_side(t.drop_first()) == Seq::<Seq<char>>::empty());
    assert(kept_count(t.drop_first()) == 0);
    match e {
        Edit::Keep(x) => {
            assert(seq![x] + Seq::<Seq<char>>::empty() =~= seq![x]);
        },
        Edit::Del(x) => {
            assert(seq![x] + Seq::<Seq<char>>::empty() =~= seq![x]);
        },
        Edit::Add(x) => {
            assert(seq![x] + Seq::<Seq<char>>::empty() =~= seq![x]);
        },
    }
}

proof fn lemma_with_newlines_one(x: Seq<char>)
    ensures
        with_newlines(seq![x]) == x + seq!['\n'],
{
    let t = seq![x];
    assert(t.drop_first() =~= Seq::<Seq<char>>::empty());
    assert(t[0] == x);
    assert(with_newlines(t.drop_first()) == Seq::<char>::empty());
    assert(x + seq!['\n'] + Seq::<char>::empty() =~= x + seq!['\n']);
}

proof fn lemma_new_side_add(a: Seq<Edit>, b: Seq<Edit>)
    ensures
        new_side(a + b) == new_side(a) + new_side(b),
    decreases a.len(),
{
    if a.len() == 0 {
        assert(a + b =~= b);
    } else {
        assert((a + b).drop_first() =~= a.drop_first() + b);
        lemma_new_side_add(a.drop_first(), b);
    }
}

proof fn lemma_old_side_add(a: Seq<Edit>, b: Seq<Edit>)
    ensures
        old_side(a + b) == old_side(a) + old_side(b),
    decreases a.len(),
{
    if a.len() == 0 {
        assert(a + b =~= b);
    } else {
        assert((a + b).drop_first() =~= a.drop_first() + b);
        lemma_old_side_add(a.drop_first(), b);
    }
}

proof fn lemma_kept_add(a: Seq<Edit>, b: Seq<Edit>)
    ensures
        kept_count(a + b) == kept_count(a) + kept_count(b),
    decreases a.len(),
{
    if a.len() == 0 {
        assert(a + b =~= b);
    } else {
        assert((a + b).drop_first() =~= a.drop_first() + b);
        lemma_kept_add(a.drop_first(), b);
    }
}

proof fn lemma_with_newlines_add(a: Seq<Seq<char>>, b: Seq<Seq<char>>)
    ensures
        with_newlines(a + b) == with_newlines(a) + with_newlines(b),
    decreases a.len(),
{
    if a.len() == 0 {
        assert(a + b =~= b);
    } else {
        assert((a + b).drop_first() =~= a.drop_first() + b);
        lemma_with_newlines_add(a.drop_first(), b);
        assert(with_newlines(a + b) =~= a[0] + seq!['\n'] + (with_newlines(a.drop_first()) + with_newlines(b)));
    }
}

proof fn lemma_gap_sides(o: Seq<Seq<char>>, n: Seq<Seq<char>>, oi: int, ni: int, oe: int, ne: int)
    requires
        0 <= oi <= oe <= o.len(),
        0 <= ni <= ne <= n.len(),
    ensures
        old_side(gap(o, n, oi, ni, oe, ne)) == o.subrange(oi, oe),
        new_side(gap(o, n, oi, ni, oe, ne)) == n.subrange(ni, ne),
        kept_count(gap(o, n, oi, ni, oe, ne)) == 0,
    decreases (oe - oi) + (ne - ni),
{
    let g = gap(o, n, oi, ni, oe, ne);
    if oi < oe && ni < ne {
        lemma_gap_sides(o, n, oi + 1, ni + 1, oe, ne);
        let r = gap(o, n, oi + 1, ni + 1, oe, ne);
        assert(g.drop_first().drop_first() =~= r);
        assert(o.subrange(oi, oe) =~= seq![o[oi]] + o.subrange(oi + 1, oe));
        assert(n.subrange(ni, ne) =~= seq![n[ni]] + n.subrange(ni + 1, ne));
        assert(new_side(g.drop_first()) == seq![n[ni]] + new_side(r));
        assert(old_side(g.drop_first()) == old_side(r));
        assert(kept_count(g.drop_first()) == kept_count(r));
    } else if oi < oe {
        lemma_gap_sides(o, n, oi + 1, ni, oe, ne);
        assert(g.drop_first() =~= gap(o, n, oi + 1, ni, oe, ne));
        assert(o.subrange(oi, oe) =~= seq![o[oi]] + o.subrange(oi + 1, oe));
    } else if ni < ne {
        lemma_gap_sides(o, n, oi, ni + 1, oe, ne);
        assert(g.drop_first() =~= gap(o, n, oi, ni + 1, oe, ne));
        assert(n.subrange(ni, ne) =~= seq![n[ni]] + n.subrange(ni + 1, ne));
    } else {
        assert(o.subrange(oi, oe) =~= Seq::<Seq<char>>::empty());
        assert(n.subrange(ni, ne) =~= Seq::<Seq<char>>::empty());
    }
}

proof fn lemma_script_sides(o: Seq<Seq<char>>, n: Seq<Seq<char>>, ps: Seq<(usize, usize)>, oi: int, ni: int)
    requires
        is_common(o, n, ps),
        0 <= oi <= o.len(),
        0 <= ni <= n.len(),
        ps.len() > 0 ==> oi <= ps[0].0 && ni <= ps[0].1,
    ensures
        old_side(script(o, n, ps, oi, ni)) == o.subrange(oi, o.len() as int),
        new_side(script(o, n, ps, oi, ni)) == n.subrange(ni, n.len() as int),
        kept_count(script(o, n, ps, oi, ni)) == ps.len(),
    decreases ps.len(),
{
    if ps.len() == 0 {
        lemma_gap_sides(o, n, oi, ni, o.len() as int, n.len() as int);
    } else {
        let p = ps[0];
        let rest = ps.drop_first();
        assert(is_common(o, n, rest)) by {
            assert forall|k: int| 0 <= k < rest.len() implies (#[trigger] rest[k]).0 < o.len()
                && rest[k].1 < n.len() && o[rest[k].0 as int] == n[rest[k].1 as int] by {
                assert(rest[k] == ps[k + 1]);
            }
            assert forall|k1: int, k2: int|
                0 <= k1 < k2 < rest.len() implies (#[trigger] rest[k1]).0 < (#[trigger] rest[k2]).0
                    && rest[k1].1 < rest[k2].1 by {
                assert(rest[k1] == ps[k1 + 1]);
                assert(rest[k2] == ps[k2 + 1]);
            }
        }
        if rest.len() > 0 {
            assert(rest[0] == ps[1]);
        }
        lemma_script_sides(o, n, rest, p.0 + 1, p.1 + 1);
        lemma_gap_sides(o, n, oi, ni, p.0 as int, p.1 as int);
        let g = gap(o, n, oi, ni, p.0 as int, p.1 as int);
        let kk = seq![Edit::Keep(o[p.0 as int])];
        let sc = script(o, n, rest, p.0 + 1, p.1 + 1);
        lemma_old_side_add(g + kk, sc);
        lemma_old_side_add(g, kk);
        lemma_new_side_add(g + kk, sc);
        lemma_new_side_add(g, kk);
        lemma_kept_add(g + kk, sc);
        lemma_kept_add(g, kk);
        lemma_sides_one(Edit::Keep(o[p.0 as int]));
        assert(o.subrange(oi, o.len() as int) =~= o.subrange(oi, p.0 as int) + seq![o[p.0 as int]]
            + o.subrange(p.0 + 1, o.len() as int));
        assert(n.subrange(ni, n.len() as int) =~= n.subrange(ni, p.1 as int) + seq![n[p.1 as int]]
            + n.subrange(p.1 + 1, n.len() as int));
    }
}

/// The edit script of a diff keeps exactly the old lines on its old side,
/// the new lines on its new side, and as many kept lines as the longest
/// common subsequence is long.
pub proof fn lemma_script_complete(o: Seq<Seq<char>>, n: Seq<Seq<char>>, ps: Seq<(usize, usize)>)
    requires
        is_common(o, n, ps),
    ensures
        old_side(script(o, n, ps, 0, 0)) == o,
        new_side(script(o, n, ps, 0, 0)) == n,
        kept_count(script(o, n, ps, 0, 0)) == ps.len(),
{
    lemma_script_sides(o, n, ps, 0, 0);
    assert(o.subrange(0, o.len() as int) =~= o);
    assert(n.subrange(0, n.len() as int) =~= n);
}

/// Diffing two texts and applying the result reproduces the new text's
/// lines, each followed by a newline; when both texts have no lines the
/// diff is empty and applying it leaves the original untouched.
pub proof fn lemma_apply_compute_diff(old: Seq<char>, new: Seq<char>, original: Seq<char>, hs: Seq<DiffHunk>)
    requires
        lines(old).len() <= usize::MAX,
        lines(new).len() <= usize::MAX,
        hunks_of(hs, script(lines(old), lines(new), line_matches(old, new), 0, 0)),
    ensures
        lines(old).len() + lines(new).len() > 0 ==> applied(original, hs) == with_newlines(lines(new)),
        lines(old).len() + lines(new).len() == 0 ==> applied(original, hs) == original,
{
    let ps = line_matches(old, new);
    lemma_lcs_pairs(lines(old), lines(new), lines(old).len() as int, lines(new).len() as int);
    let es = script(lines(old), lines(new), ps, 0, 0);
    lemma_script_complete(lines(old), lines(new), ps);
    if es.len() == 0 {
        assert(old_side(es).len() == 0);
        assert(new_side(es).len() == 0);
    } else {
        assert(hs.last() == hs[0]);
        if lines(old).len() + lines(new).len() == 0 {
            // Both sides empty forces an empty script.
            assert(es.len() > 0);
            match es[0] {
                Edit::Keep(x) => {
                    assert(old_side(es).len() > 0);
                },
                Edit::Del(x) => {
                    assert(old_side(es).len() > 0);
                },
                Edit::Add(x) => {
                    assert(new_side(es).len() > 0);
                },
            }
        }
    }
}

/// Apply edit hunks to a text: the result is the new side of the last
/// hunk, each line followed by a newline, or the original text when there
/// are no hunks.
pub fn apply_diff(original: &str, hunks: &[DiffHunk]) -> (r: String)
    ensures
        r@ == applied(original@, hunks@),
{
    let mut result = to_owned(original);
    let mut h: usize = 0;
    while h < hunks.len()
        invariant
            h <= hunks.len(),
            h == 0 ==> result@ == original@,
            h > 0 ==> result@ == with_newlines(new_side(edits(hunks@[h - 1].lines@))),
        decreases hunks.len() - h,
    {
        let hunk = &hunks[h];
        let mut applied_text = String::new();
        let mut i: usize = 0;
        while i < hunk.lines.len()
            invariant
                i <= hunk.lines.len(),
                applied_text@ == with_newlines(new_side(edits(hunk.lines@.take(i as int)))),
            decreases hunk.lines.len() - i,
        {
            let ghost pre = edits(hunk.lines@.take(i as int));
            let ghost e = hunk.lines@[i as int]@;
            proof {
                assert(edits(hunk.lines@.take(i + 1)) =~= pre + seq![e]);
                lemma_new_side_add(pre, seq![e]);
                lemma_sides_one(e);
            }
            match &hunk.lines[i] {
                DiffLine::Context(s) => {
                    push_str(&mut applied_text, s.as_str());
                    push_char(&mut applied_text, '\n');
                    proof {
                        assert(new_side(seq![e]) == seq![s@]);
                        lemma_with_newlines_add(new_side(pre), seq![s@]);
                        lemma_with_newlines_one(s@);
                        assert(applied_text@ =~= with_newlines(new_side(pre)) + with_newlines(seq![s@]));
                    }
                },
                DiffLine::Addition(s) => {
                    push_str(&mut applied_text, s.as_str());
                    push_char(&mut applied_text, '\n');
                    proof {
                        assert(new_side(seq![e]) == seq![s@]);
                        lemma_with_newlines_add(new_side(pre), seq![s@]);
                        lemma_with_newlines_one(s@);
                        assert(applied_text@ =~= with_newlines(new_side(pre)) + with_newlines(seq![s@]));
                    }
                },
                DiffLine::Deletion(_) => {
                    proof {
                        assert(new_side(seq![e]) =~= Seq::<Seq<char>>::empty());
                        assert(new_side(pre) + new_side(seq![e]) =~= new_side(pre));
                    }
                },
            }
            i += 1;
        }
        assert(hunk.lines@.take(i as int) =~= hunk.lines@);
        result = applied_text;
        h += 1;
    }
    result
}

/// A line of unified diff output: a marker character and the text.
pub open spec fn unified_line(e: Edit) -> Seq<char> {
    match e {
        Edit::Keep(s) => seq![' '] + s,
        Edit::Add(s) => seq!['+'] + s,
        Edit::Del(s) => seq!['-'] + s,
    }
}

/// The unified lines of an edit script, each followed by a newline.
pub open spec fn unified_body(es: Seq<Edit>) -> Seq<char>
    decreases es.len(),
{
    if es.len() == 0 {
        seq![]
    } else {
        unified_line(es[0]) + seq!['\n'] + unified_body(es.drop_first())
    }
}

/// The unified-diff text of one hunk: file header, range header with the
/// old and new line counts, then its lines.
pub open spec fn hunk_text(h: DiffHunk) -> Seq<char> {
    let es = edits(h.lines@);
    "--- a/"@ + h.file_path@ + "\n+++ b/"@ + h.file_path@ + "\n"@ + "@@ -"@ + decimal(
        h.old_start as nat,
    ) + ","@ + decimal(old_side(es).len()) + " +"@ + decimal(h.new_start as nat) + ","@ + decimal(
        new_side(es).len(),
    ) + " @@ "@ + h.header@ + "\n"@ + unified_body(es)
}

/// The unified-diff text of a list of hunks.
pub open spec fn unified(hs: Seq<DiffHunk>) -> Seq<char>
    decreases hs.len(),
{
    if hs.len() == 0 {
        seq![]
    } else {
        unified(hs.drop_last()) + hunk_text(hs.last())
    }
}

proof fn lemma_unified_body_push(es: Seq<Edit>, e: Edit)
    ensures
        unified_body(es.push(e)) == unified_body(es) + unified_line(e) + seq!['\n'],
    decreases es.len(),
{
    if es.len() == 0 {
        let t = seq![e];
        assert(es.push(e) =~= t);
        assert(t.drop_first() =~= Seq::<Edit>::empty());
        assert(unified_body(t.drop_first()) == Seq::<char>::empty());
        assert(unified_body(t) =~= unified_line(e) + seq!['\n']);
        assert(unified_body(es) == Seq::<char>::empty());
        assert(unified_body(es) + unified_line(e) + seq!['\n'] =~= unified_line(e) + seq!['\n']);
    } else {
        assert(es.push(e).drop_first() =~= es.drop_first().push(e));
        lemma_unified_body_push(es.drop_first(), e);
        assert(unified_body(es.push(e)) =~= unified_line(es[0]) + seq!['\n'] + (unified_body(
            es.drop_first(),
        ) + unified_line(e) + seq!['\n']));
    }
}

impl DiffLine {
    /// The line as it appears in unified diff output.
    pub fn to_unified(&self) -> (r: String)
        ensures
            r@ == unified_line(self@),
    {
        let mut out = String::new();
        match self {
            DiffLine::Context(s) => {
                push_char(&mut out, ' ');
                push_str(&mut out, s.as_str());
            },
            DiffLine::Addition(s) => {
                push_char(&mut out, '+');
                push_str(&mut out, s.as_str());
            },
            DiffLine::Deletion(s) => {
                push_char(&mut out, '-');
                push_str(&mut out, s.as_str());
            },
        }
        proof {
            assert(out@ =~= unified_line(self@));
        }
        out
    }
}

/// Old-side and new-side line counts of a hunk.
fn hunk_counts(lines: &Vec<DiffLine>) -> (r: (usize, usize))
    ensures
        r.0 == old_side(edits(lines@)).len(),
        r.1 == new_side(edits(lines@)).len(),
{
    let mut co: usize = 0;
    let mut cn: usize = 0;
    let mut i: usize = 0;
    while i < lines.len()
        invariant
            i <= lines.len(),
            co == old_side(edits(lines@.take(i as int))).len(),
            cn == new_side(edits(lines@.take(i as int))).len(),
            co <= i,
            cn <= i,
        decreases lines.len() - i,
    {
        let ghost pre = edits(lines@.take(i as int));
        let ghost e = lines@[i as int]@;
        proof {
            assert(edits(lines@.take(i + 1)) =~= pre + seq![e]);
            lemma_old_side_add(pre, seq![e]);
            lemma_new_side_add(pre, seq![e]);
            lemma_sides_one(e);
        }
        match &lines[i] {
            DiffLine::Context(_) => {
                co += 1;
                cn += 1;
            },
            DiffLine::Addition(_) => {
                cn += 1;
            },
            DiffLine::Deletion(_) => {
                co += 1;
            },
        }
        i += 1;
    }
    assert(lines@.take(i as int) =~= lines@);
    (co, cn)
}

/// Render hunks as a unified diff.
pub fn unified_diff(hunks: &[DiffHunk]) -> (r: String)
    ensures
        r@ == unified(hunks@),
{
    let mut output = String::new();
    let mut h: usize = 0;
    while h < hunks.len()
        invariant
            h <= hunks.len(),
            output@ == unified(hunks@.take(h as int)),
        decreases hunks.len() - h,
    {
        let hunk = &hunks[h];
        let ghost start = output@;
        let (co, cn) = hunk_counts(&hunk.lines);
        push_str(&mut output, "--- a/");
        push_str(&mut output, hunk.file_path.as_str());
        push_str(&mut output, "\n+++ b/");
        push_str(&mut output, hunk.file_path.as_str());
        push_str(&mut output, "\n");
        push_str(&mut output, "@@ -");
        let a = decimal_string(hunk.old_start as u128);
        push_str(&mut output, a.as_str());
        push_str(&mut output, ",");
        let b = decimal_string(co as u128);
        push_str(&mut output, b.as_str());
        push_str(&mut output, " +");
        let c = decimal_string(hunk.new_start as u128);
        push_str(&mut output, c.as_str());
        push_str(&mut output, ",");
        let d = decimal_string(cn as u128);
        push_str(&mut output, d.as_str());
        push_str(&mut output, " @@ ");
        push_str(&mut output, hunk.header.as_str());
        push_str(&mut output, "\n");
        let ghost head = output@;
        let mut i: usize = 0;
        while i < hunk.lines.len()
            invariant
                i <= hunk.lines.len(),
                output@ == head + unified_body(edits(hunk.lines@.take(i as int))),
            decreases hunk.lines.len() - i,
        {
            let ghost pre = edits(hunk.lines@.take(i as int));
            proof {
                assert(edits(hunk.lines@.take(i + 1)) =~= pre.push(hunk.lines@[i as int]@));
                lemma_unified_body_push(pre, hunk.lines@[i as int]@);
            }
            let l = hunk.lines[i].to_unified();
            push_str(&mut output, l.as_str());
            push_str(&mut output, "\n");
            proof {
                reveal_strlit("\n");
                assert(output@ =~= head + (unified_body(pre) + unified_line(hunk.lines@[i as int]@)
                    + seq!['\n']));
            }
            i += 1;
        }
        proof {
            assert(hunk.lines@.take(i as int) =~= hunk.lines@);
            assert(hunks@.take(h + 1).drop_last() =~= hunks@.take(h as int));
            assert(output@ =~= start + hunk_text(hunks@[h as int]));
        }
        h += 1;
    }
    assert(hunks@.take(h as int) =~= hunks@);
    output
}

} // verus!
