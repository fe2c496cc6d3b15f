//! Character-level text operations, stated over `Seq<char>`.
//!
//! Every string the library builds or inspects goes through these
//! functions. Each has an exact specification, so the contracts of the
//! higher-level modules can be written in terms of them.
use vstd::prelude::*;

verus! {

// ---------------------------------------------------------------------
// Specifications
// ---------------------------------------------------------------------

/// `p` is a prefix of `s`.
pub open spec fn starts_with(s: Seq<char>, p: Seq<char>) -> bool {
    p.len() <= s.len() && s.subrange(0, p.len() as int) == p
}

/// `p` is a suffix of `s`.
pub open spec fn ends_with(s: Seq<char>, p: Seq<char>) -> bool {
    p.len() <= s.len() && s.subrange(s.len() - p.len(), s.len() as int) == p
}

/// `p` occurs in `s` starting at index `i`.
pub open spec fn occurs_at(s: Seq<char>, p: Seq<char>, i: int) -> bool {
    0 <= i && i + p.len() <= s.len() && s.subrange(i, i + p.len()) == p
}

/// `p` occurs somewhere in `s` (the empty pattern occurs everywhere).
pub open spec fn contains(s: Seq<char>, p: Seq<char>) -> bool {
    exists|i: int| occurs_at(s, p, i)
}

/// Index of the first occurrence of `p` in `s`, or `s.len()` when none.
pub open spec fn find(s: Seq<char>, p: Seq<char>) -> int
    decreases s.len(),
{
    if occurs_at(s, p, 0) {
        0
    } else if s.len() == 0 {
        0
    } else {
        1 + find(s.skip(1), p)
    }
}

/// Index of the first occurrence of `c` in `s`, or `s.len()` when none.
pub open spec fn find_char(s: Seq<char>, c: char) -> int
    decreases s.len(),
{
    if s.len() == 0 {
        0
    } else if s[0] == c {
        0
    } else {
        1 + find_char(s.skip(1), c)
    }
}

/// Rust's `char::is_whitespace`: the Unicode `White_Space` property.
pub open spec fn is_ws(c: char) -> bool {
    ||| '\u{9}' <= c && c <= '\u{d}'
    ||| c == ' '
    ||| c == '\u{85}'
    ||| c == '\u{a0}'
    ||| c == '\u{1680}'
    ||| '\u{2000}' <= c && c <= '\u{200a}'
    ||| c == '\u{2028}'
    ||| c == '\u{2029}'
    ||| c == '\u{202f}'
    ||| c == '\u{205f}'
    ||| c == '\u{3000}'
}

/// `s` without its leading whitespace.
pub open spec fn trim_start(s: Seq<char>) -> Seq<char>
    decreases s.len(),
{
    if s.len() > 0 && is_ws(s[0]) {
        trim_start(s.skip(1))
    } else {
        s
    }
}

/// `s` without its trailing whitespace.
pub open spec fn trim_end(s: Seq<char>) -> Seq<char>
    decreases s.len(),
{
    if s.len() > 0 && is_ws(s.last()) {
        trim_end(s.drop_last())
    } else {
        s
    }
}

/// `s` without leading and trailing whitespace (Rust's `str::trim`).
pub open spec fn trim(s: Seq<char>) -> Seq<char> {
    trim_end(trim_start(s))
}

/// ASCII upper-case letter.
pub open spec fn is_ascii_upper(c: char) -> bool {
    'A' <= c && c <= 'Z'
}

/// ASCII lower-case letter.
pub open spec fn is_ascii_lower(c: char) -> bool {
    'a' <= c && c <= 'z'
}

/// ASCII digit.
pub open spec fn is_ascii_digit(c: char) -> bool {
    '0' <= c && c <= '9'
}

/// ASCII letter or digit.
pub open spec fn is_ascii_alnum(c: char) -> bool {
    is_ascii_upper(c) || is_ascii_lower(c) || is_ascii_digit(c)
}

/// Rust's `char::to_ascii_lowercase`.
pub open spec fn lower_char(c: char) -> char {
    if is_ascii_upper(c) {
        ((c as u32) + 32) as char
    } else {
        c
    }
}

/// Rust's `str::to_ascii_lowercase`.
pub open spec fn ascii_lower(s: Seq<char>) -> Seq<char> {
    s.map_values(|c: char| lower_char(c))
}

/// `s` with every occurrence of `from` replaced by `to`, scanning left to
/// right without overlaps (Rust's `str::replace` for a non-empty pattern).
pub open spec fn replace_all(s: Seq<char>, from: Seq<char>, to: Seq<char>) -> Seq<char>
    decreases s.len(),
{
    if from.len() == 0 || s.len() == 0 {
        s
    } else if starts_with(s, from) {
        to + replace_all(s.skip(from.len() as int), from, to)
    } else {
        seq![s[0]] + replace_all(s.skip(1), from, to)
    }
}

/// The pieces of `s` between occurrences of the non-empty pattern `p`
/// (Rust's `str::split` with a string pattern).
pub open spec fn split(s: Seq<char>, p: Seq<char>) -> Seq<Seq<char>>
    decreases s.len(),
{
    if p.len() == 0 || !contains(s, p) {
        seq![s]
    } else {
        let k = find(s, p);
        proof {
            lemma_find(s, p);
        }
        seq![s.take(k)] + split(s.skip(k + p.len()), p)
    }
}

/// `l` without one trailing carriage return.
pub open spec fn strip_cr(l: Seq<char>) -> Seq<char> {
    if l.len() > 0 && l.last() == '\r' {
        l.drop_last()
    } else {
        l
    }
}

/// The lines of `s` (Rust's `str::lines`): split at `\n`, drop a `\r`
/// that ends a line, and drop the empty piece after a final `\n`.
pub open spec fn lines(s: Seq<char>) -> Seq<Seq<char>>
    decreases s.len(),
{
    if s.len() == 0 {
        seq![]
    } else {
        let k = find_char(s, '\n');
        proof {
            lemma_find_char(s, '\n');
        }
        if k >= s.len() {
            seq![s]
        } else {
            seq![strip_cr(s.take(k))] + lines(s.skip(k + 1))
        }
    }
}

/// The digit character of `d < 10`.
pub open spec fn digit_char(d: int) -> char {
    ('0' as u32 + d) as char
}

/// The decimal representation of `n`, without leading zeros.
pub open spec fn decimal(n: nat) -> Seq<char>
    decreases n,
{
    if n < 10 {
        seq![digit_char(n as int)]
    } else {
        decimal(n / 10).push(digit_char((n % 10) as int))
    }
}

/// The value of a sequence of ASCII digits.
pub open spec fn digits_value(s: Seq<char>) -> nat
    decreases s.len(),
{
    if s.len() == 0 {
        0
    } else {
        digits_value(s.drop_last()) * 10 + ((s.last() as u32) - ('0' as u32)) as nat
    }
}

/// Every character of `t` is an ASCII digit.
pub open spec fn all_digits(t: Seq<char>) -> bool {
    forall|i: int| 0 <= i < t.len() ==> is_ascii_digit(#[trigger] t[i])
}

/// `s` without one leading `+`.
pub open spec fn unsigned_body(s: Seq<char>) -> Seq<char> {
    if s.len() > 0 && s[0] == '+' {
        s.skip(1)
    } else {
        s
    }
}

/// What `str::parse::<usize>` accepts: an optional `+`, then one or more
/// ASCII digits whose value fits in `usize`.
pub open spec fn parse_usize(s: Seq<char>) -> Option<nat> {
    let body = unsigned_body(s);
    if body.len() > 0 && all_digits(body) && digits_value(body) <= usize::MAX {
        Some(digits_value(body))
    } else {
        None
    }
}

/// `s` padded on the right with spaces to at least `w` characters
/// (the `{:<w}` format).
pub open spec fn pad_right(s: Seq<char>, w: nat) -> Seq<char> {
    if s.len() >= w {
        s
    } else {
        s + Seq::new((w - s.len()) as nat, |i: int| ' ')
    }
}

/// `s` padded on the left with spaces to at least `w` characters
/// (the `{:>w}` format).
pub open spec fn pad_left(s: Seq<char>, w: nat) -> Seq<char> {
    if s.len() >= w {
        s
    } else {
        Seq::new((w - s.len()) as nat, |i: int| ' ') + s
    }
}

/// The pieces of `ps` joined with `sep` between them.
pub open spec fn join(ps: Seq<Seq<char>>, sep: Seq<char>) -> Seq<char>
    decreases ps.len(),
{
    if ps.len() == 0 {
        seq![]
    } else if ps.len() == 1 {
        ps[0]
    } else {
        join(ps.drop_last(), sep) + sep + ps.last()
    }
}

/// The views of a vector of strings.
pub open spec fn views(v: Seq<String>) -> Seq<Seq<char>> {
    v.map_values(|s: String| s@)
}

// ---------------------------------------------------------------------
// Lemmas
// ---------------------------------------------------------------------

/// `find` lies within the sequence and marks the first occurrence.
pub proof fn lemma_find(s: Seq<char>, p: Seq<char>)
    ensures
        0 <= find(s, p) <= s.len(),
        contains(s, p) ==> occurs_at(s, p, find(s, p)),
        forall|j: int| 0 <= j < find(s, p) ==> !occurs_at(s, p, j),
        !contains(s, p) ==> find(s, p) == s.len() || (s.len() == 0),
    decreases s.len(),
{
    if occurs_at(s, p, 0) {
    } else if s.len() == 0 {
    } else {
        lemma_find(s.skip(1), p);
        let t = s.skip(1);
        assert forall|j: int| 0 <= j < find(s, p) implies !occurs_at(s, p, j) by {
            if j > 0 {
                assert(!occurs_at(t, p, j - 1));
                if occurs_at(s, p, j) {
                    assert(t.subrange(j - 1, j - 1 + p.len()) =~= s.subrange(j, j + p.len()));
                }
            }
        }
        if contains(s, p) {
            let i = choose|i: int| occurs_at(s, p, i);
            assert(i != 0);
            assert(t.subrange(i - 1, i - 1 + p.len()) =~= s.subrange(i, i + p.len()));
            assert(occurs_at(t, p, i - 1));
            let f = find(t, p);
            assert(s.subrange(f + 1, f + 1 + p.len()) =~= t.subrange(f, f + p.len()));
        } else {
            if contains(t, p) {
                let i = choose|i: int| occurs_at(t, p, i);
                assert(s.subrange(i + 1, i + 1 + p.len()) =~= t.subrange(i, i + p.len()));
                assert(occurs_at(s, p, i + 1));
            }
        }
    }
}

/// `find_char` lies within the sequence and marks the first `c`.
pub proof fn lemma_find_char(s: Seq<char>, c: char)
    ensures
        0 <= find_char(s, c) <= s.len(),
        find_char(s, c) < s.len() ==> s[find_char(s, c)] == c,
        forall|j: int| 0 <= j < find_char(s, c) ==> s[j] != c,
    decreases s.len(),
{
    if s.len() == 0 {
    } else if s[0] == c {
    } else {
        lemma_find_char(s.skip(1), c);
        assert forall|j: int| 0 <= j < find_char(s, c) implies s[j] != c by {
            if j > 0 {
                assert(s[j] == s.skip(1)[j - 1]);
            }
        }
    }
}

/// A scan that stops at the first `c` computes `find_char`.
pub proof fn lemma_find_char_is(s: Seq<char>, c: char, k: int)
    requires
        0 <= k <= s.len(),
        k < s.len() ==> s[k] == c,
        forall|j: int| 0 <= j < k ==> s[j] != c,
    ensures
        find_char(s, c) == k,
{
    lemma_find_char(s, c);
    let f = find_char(s, c);
    if f < k {
        assert(s[f] == c);
    } else if f > k {
        assert(s[k] != c);
    }
}

/// A scan that stops at the first occurrence computes `find`.
pub proof fn lemma_find_is(s: Seq<char>, p: Seq<char>, k: int)
    requires
        0 <= k <= s.len(),
        occurs_at(s, p, k) || k == s.len(),
        forall|j: int| 0 <= j < k ==> !occurs_at(s, p, j),
    ensures
        find(s, p) == k,
        occurs_at(s, p, k) <==> contains(s, p),
{
    lemma_find(s, p);
    let f = find(s, p);
    if contains(s, p) {
        if f < k {
        } else if f > k {
            if k == s.len() {
                assert(f <= s.len());
            }
        }
        if !occurs_at(s, p, k) {
            assert(k == s.len());
            assert(occurs_at(s, p, f));
            assert(f < k || p.len() == 0);
        }
    } else {
        assert(!occurs_at(s, p, k));
    }
}

/// `trim_start` of a suffix reached by skipping whitespace.
pub proof fn lemma_trim_start_skip(s: Seq<char>, i: int)
    requires
        0 <= i <= s.len(),
        forall|j: int| 0 <= j < i ==> is_ws(s[j]),
    ensures
        trim_start(s) == trim_start(s.skip(i)),
    decreases i,
{
    if i > 0 {
        assert(s.skip(1).skip(i - 1) =~= s.skip(i));
        lemma_trim_start_skip(s.skip(1), i - 1);
    } else {
        assert(s.skip(0) =~= s);
    }
}

/// `trim_end` of a prefix reached by dropping whitespace.
pub proof fn lemma_trim_end_take(s: Seq<char>, i: int)
    requires
        0 <= i <= s.len(),
        forall|j: int| i <= j < s.len() ==> is_ws(s[j]),
    ensures
        trim_end(s) == trim_end(s.take(i)),
    decreases s.len() - i,
{
    if i < s.len() {
        assert(s.drop_last().take(i) =~= s.take(i));
        lemma_trim_end_take(s.drop_last(), i);
    } else {
        assert(s.take(i) =~= s);
    }
}

/// `lines` unfolds at the first newline.
pub proof fn lemma_lines_step(s: Seq<char>, k: int)
    requires
        0 <= k < s.len(),
        s[k] == '\n',
        forall|j: int| 0 <= j < k ==> s[j] != '\n',
    ensures
        lines(s) == seq![strip_cr(s.take(k))] + lines(s.skip(k + 1)),
{
    lemma_find_char_is(s, '\n', k);
}

/// `lines` of a sequence without newlines.
pub proof fn lemma_lines_last(s: Seq<char>)
    requires
        s.len() > 0,
        forall|j: int| 0 <= j < s.len() ==> s[j] != '\n',
    ensures
        lines(s) == seq![s],
{
    lemma_find_char_is(s, '\n', s.len() as int);
}

/// `split` unfolds at the first occurrence of the pattern.
pub proof fn lemma_split_step(s: Seq<char>, p: Seq<char>, k: int)
    requires
        p.len() > 0,
        occurs_at(s, p, k),
        forall|j: int| 0 <= j < k ==> !occurs_at(s, p, j),
    ensures
        split(s, p) == seq![s.take(k)] + split(s.skip(k + p.len()), p),
{
    lemma_find_is(s, p, k);
}

/// `split` of a sequence without the pattern.
pub proof fn lemma_split_last(s: Seq<char>, p: Seq<char>)
    requires
        p.len() > 0,
        forall|j: int| 0 <= j <= s.len() ==> !occurs_at(s, p, j),
    ensures
        split(s, p) == seq![s],
{
    if contains(s, p) {
        let i = choose|i: int| occurs_at(s, p, i);
        assert(0 <= i <= s.len());
    }
}

/// Every piece produced by `split` is free of the pattern, and there is
/// at least one piece.
pub proof fn lemma_split_len(s: Seq<char>, p: Seq<char>)
    ensures
        split(s, p).len() >= 1,
    decreases s.len(),
{
    if p.len() == 0 || !contains(s, p) {
    } else {
        lemma_find(s, p);
        lemma_split_len(s.skip(find(s, p) + p.len()), p);
    }
}

/// `join` with one more piece.
pub proof fn lemma_join_push(ps: Seq<Seq<char>>, sep: Seq<char>, x: Seq<char>)
    requires
        ps.len() > 0,
    ensures
        join(ps.push(x), sep) == join(ps, sep) + sep + x,
{
    assert(ps.push(x).drop_last() =~= ps);
}

/// `c` occurs in `s`.
pub open spec fn has_char(s: Seq<char>, c: char) -> bool {
    exists|i: int| 0 <= i < s.len() && s[i] == c
}

/// Replacing every `c` by text without `d` leaves no `d` behind, provided
/// `d` is `c` or did not occur to begin with.
pub proof fn lemma_replace_char_absent(s: Seq<char>, c: char, to: Seq<char>, d: char)
    requires
        d == c || !has_char(s, d),
        !has_char(to, d),
    ensures
        !has_char(replace_all(s, seq![c], to), d),
    decreases s.len(),
{
    let from = seq![c];
    if s.len() == 0 {
    } else {
        let r = replace_all(s, from, to);
        if starts_with(s, from) {
            let rest = s.skip(1);
            assert(from.len() == 1);
            if !has_char(s, d) {
                assert forall|i: int| 0 <= i < rest.len() implies rest[i] != d by {
                    assert(rest[i] == s[i + 1]);
                }
            }
            lemma_replace_char_absent(rest, c, to, d);
            let tail = replace_all(rest, from, to);
            assert(r == to + tail);
            assert forall|i: int| 0 <= i < r.len() implies r[i] != d by {
                if i < to.len() {
                    assert(r[i] == to[i]);
                } else {
                    assert(r[i] == tail[i - to.len()]);
                }
            }
        } else {
            let rest = s.skip(1);
            if !has_char(s, d) {
                assert forall|i: int| 0 <= i < rest.len() implies rest[i] != d by {
                    assert(rest[i] == s[i + 1]);
                }
            }
            assert(s.subrange(0, 1) =~= seq![s[0]]);
            assert(s[0] != c);
            lemma_replace_char_absent(rest, c, to, d);
            let tail = replace_all(rest, from, to);
            assert(r == seq![s[0]] + tail);
            assert forall|i: int| 0 <= i < r.len() implies r[i] != d by {
                if i == 0 {
                    assert(r[0] == s[0]);
                } else {
                    assert(r[i] == tail[i - 1]);
                }
            }
        }
    }
}

/// `s` with every leading copy of the non-empty `p` removed
/// (`str::trim_start_matches`).
pub open spec fn trim_start_matches(s: Seq<char>, p: Seq<char>) -> Seq<char>
    decreases s.len(),
{
    if p.len() > 0 && starts_with(s, p) {
        trim_start_matches(s.skip(p.len() as int), p)
    } else {
        s
    }
}

/// `s` without leading `c`s.
pub open spec fn trim_start_char(s: Seq<char>, c: char) -> Seq<char>
    decreases s.len(),
{
    if s.len() > 0 && s[0] == c {
        trim_start_char(s.skip(1), c)
    } else {
        s
    }
}

/// `s` without trailing `c`s.
pub open spec fn trim_end_char(s: Seq<char>, c: char) -> Seq<char>
    decreases s.len(),
{
    if s.len() > 0 && s.last() == c {
        trim_end_char(s.drop_last(), c)
    } else {
        s
    }
}

// ---------------------------------------------------------------------
// Executable operations
// ---------------------------------------------------------------------

/// Append one character to a string (`String::push`).
#[verifier::external_body]
pub(crate) fn push_char(s: &mut String, c: char)
    ensures
        final(s)@ == old(s)@.push(c),
{
    s.push(c);
}

/// What `str::to_lowercase` returns for a text (Unicode lower-casing).
pub uninterp spec fn lowercase(s: Seq<char>) -> Seq<char>;

/// Unicode lower-casing of a string slice (`str::to_lowercase`).
#[verifier::external_body]
pub(crate) fn str_to_lowercase(s: &str) -> (r: String)
    ensures
        r@ == lowercase(s@),
{
    s.to_lowercase()
}

/// The characters of a string slice, in order.
pub fn chars_of(s: &str) -> (r: Vec<char>)
    ensures
        r@ == s@,
{
    let mut out: Vec<char> = Vec::new();
    for c in it: s.chars()
        invariant
            out@ == it.seq().take(it.index() as int),
            it.seq() == s@,
    {
        out.push(c);
    }
    out
}

/// A string holding `cs[lo..hi]`.
pub fn string_from(cs: &Vec<char>, lo: usize, hi: usize) -> (r: String)
    requires
        lo <= hi <= cs.len(),
    ensures
        r@ == cs@.subrange(lo as int, hi as int),
{
    let mut out = String::new();
    let mut i = lo;
    while i < hi
        invariant
            lo <= i <= hi <= cs.len(),
            out@ == cs@.subrange(lo as int, i as int),
        decreases hi - i,
    {
        push_char(&mut out, cs[i]);
        assert(cs@.subrange(lo as int, i + 1) =~= cs@.subrange(lo as int, i as int).push(cs@[i as int]));
        i += 1;
    }
    out
}

/// Append a string slice to a string.
pub fn push_str(s: &mut String, t: &str)
    ensures
        final(s)@ == old(s)@ + t@,
{
    s.append(t);
}

/// A copy of a string slice.
pub fn to_owned(s: &str) -> (r: String)
    ensures
        r@ == s@,
{
    s.to_owned()
}

/// Whether `p` occurs in `s` at `i`.
pub fn occurs_at_exec(s: &Vec<char>, p: &Vec<char>, i: usize) -> (b: bool)
    ensures
        b == occurs_at(s@, p@, i as int),
{
    if i > s.len() || p.len() > s.len() - i {
        return false;
    }
    let mut j: usize = 0;
    while j < p.len()
        invariant
            i + p.len() <= s.len(),
            j <= p.len(),
            forall|k: int| 0 <= k < j ==> s@[i + k] == p@[k],
        decreases p.len() - j,
    {
        if s[i + j] != p[j] {
            assert(s@.subrange(i as int, i + p.len())[j as int] != p@[j as int]);
            return false;
        }
        j += 1;
    }
    assert(s@.subrange(i as int, i + p.len()) =~= p@);
    true
}

/// The first occurrence of `p` in `s` at or after `from`, or `s.len()`.
pub fn find_from(s: &Vec<char>, p: &Vec<char>, from: usize) -> (k: usize)
    requires
        from <= s.len(),
    ensures
        from <= k <= s.len(),
        occurs_at(s@, p@, k as int) || k == s.len(),
        forall|j: int| from <= j < k ==> !occurs_at(s@, p@, j),
{
    let mut k = from;
    while k < s.len()
        invariant
            from <= k <= s.len(),
            forall|j: int| from <= j < k ==> !occurs_at(s@, p@, j),
        decreases s.len() - k,
    {
        if occurs_at_exec(s, p, k) {
            return k;
        }
        k += 1;
    }
    k
}

/// Whether `p` occurs anywhere in `s`.
pub fn contains_exec(s: &Vec<char>, p: &Vec<char>) -> (b: bool)
    ensures
        b == contains(s@, p@),
{
    let k = find_from(s, p, 0);
    if occurs_at_exec(s, p, k) {
        true
    } else {
        assert forall|j: int| !occurs_at(s@, p@, j) by {
            if 0 <= j < k {
            } else if j == k {
            } else if j > k {
                assert(!(j + p@.len() <= s@.len()));
            }
        }
        false
    }
}

/// Whether `p` occurs in `s` (string slices).
pub fn str_contains(s: &str, p: &str) -> (b: bool)
    ensures
        b == contains(s@, p@),
{
    let sc = chars_of(s);
    let pc = chars_of(p);
    contains_exec(&sc, &pc)
}

/// Whether `s` starts with `p`.
pub fn str_starts_with(s: &str, p: &str) -> (b: bool)
    ensures
        b == starts_with(s@, p@),
{
    let sc = chars_of(s);
    let pc = chars_of(p);
    occurs_at_exec(&sc, &pc, 0)
}

/// Whether `s` ends with `p`.
pub fn str_ends_with(s: &str, p: &str) -> (b: bool)
    ensures
        b == ends_with(s@, p@),
{
    let sc = chars_of(s);
    let pc = chars_of(p);
    if pc.len() > sc.len() {
        false
    } else {
        occurs_at_exec(&sc, &pc, sc.len() - pc.len())
    }
}

/// Whether two string slices hold the same characters.
pub fn str_eq(a: &str, b: &str) -> (r: bool)
    ensures
        r == (a@ == b@),
{
    let ac = chars_of(a);
    let bc = chars_of(b);
    if ac.len() != bc.len() {
        return false;
    }
    let r = occurs_at_exec(&ac, &bc, 0);
    proof {
        if r {
            assert(ac@.subrange(0, bc@.len() as int) =~= ac@);
        } else {
            if a@ == b@ {
                assert(ac@.subrange(0, bc@.len() as int) =~= ac@);
            }
        }
    }
    r
}

/// Whether `c` is whitespace.
pub fn is_ws_exec(c: char) -> (b: bool)
    ensures
        b == is_ws(c),
{
    ('\u{9}' <= c && c <= '\u{d}') || c == ' ' || c == '\u{85}' || c == '\u{a0}' || c
        == '\u{1680}' || ('\u{2000}' <= c && c <= '\u{200a}') || c == '\u{2028}' || c
        == '\u{2029}' || c == '\u{202f}' || c == '\u{205f}' || c == '\u{3000}'
}

/// `cs[lo..hi]` without leading and trailing whitespace, as bounds.
pub fn trim_bounds(cs: &Vec<char>, lo: usize, hi: usize) -> (r: (usize, usize))
    requires
        lo <= hi <= cs.len(),
    ensures
        lo <= r.0 <= r.1 <= hi,
        cs@.subrange(r.0 as int, r.1 as int) == trim(cs@.subrange(lo as int, hi as int)),
{
    let ghost s = cs@.subrange(lo as int, hi as int);
    let mut a = lo;
    while a < hi && is_ws_exec(cs[a])
        invariant
            lo <= a <= hi <= cs.len(),
            forall|j: int| lo <= j < a ==> is_ws(cs@[j]),
        decreases hi - a,
    {
        a += 1;
    }
    proof {
        lemma_trim_start_skip(s, a - lo);
        assert(s.skip(a - lo) =~= cs@.subrange(a as int, hi as int));
        if a < hi {
            assert(!is_ws(cs@[a as int]));
        }
    }
    let ghost t = cs@.subrange(a as int, hi as int);
    assert(trim_start(s) == t);
    let mut b = hi;
    while b > a && is_ws_exec(cs[b - 1])
        invariant
            lo <= a <= b <= hi <= cs.len(),
            forall|j: int| b <= j < hi ==> is_ws(cs@[j]),
        decreases b - a,
    {
        b -= 1;
    }
    proof {
        lemma_trim_end_take(t, b - a);
        assert(t.take(b - a) =~= cs@.subrange(a as int, b as int));
        if b > a {
            assert(!is_ws(cs@[b - 1]));
            assert(cs@.subrange(a as int, b as int).last() == cs@[b - 1]);
        } else {
            assert(cs@.subrange(a as int, b as int).len() == 0);
        }
    }
    (a, b)
}

/// Rust's `str::trim`.
pub fn str_trim(s: &str) -> (r: String)
    ensures
        r@ == trim(s@),
{
    let cs = chars_of(s);
    let (a, b) = trim_bounds(&cs, 0, cs.len());
    assert(cs@.subrange(0, cs@.len() as int) =~= cs@);
    string_from(&cs, a, b)
}

/// Rust's `char::to_ascii_lowercase`.
pub fn lower_char_exec(c: char) -> (r: char)
    ensures
        r == lower_char(c),
{
    if 'A' <= c && c <= 'Z' {
        let b: u8 = c as u8;
        (b + 32) as char
    } else {
        c
    }
}

/// Rust's `str::to_ascii_lowercase`.
pub fn str_ascii_lower(s: &str) -> (r: String)
    ensures
        r@ == ascii_lower(s@),
{
    let cs = chars_of(s);
    let mut out = String::new();
    let mut i: usize = 0;
    while i < cs.len()
        invariant
            i <= cs.len(),
            cs@ == s@,
            out@ == ascii_lower(s@).take(i as int),
        decreases cs.len() - i,
    {
        let c = lower_char_exec(cs[i]);
        push_char(&mut out, c);
        assert(ascii_lower(s@).take(i + 1) =~= ascii_lower(s@).take(i as int).push(c));
        i += 1;
    }
    assert(ascii_lower(s@).take(i as int) =~= ascii_lower(s@));
    out
}

/// Rust's `str::replace` for a non-empty pattern.
pub fn str_replace(s: &str, from: &str, to: &str) -> (r: String)
    requires
        from@.len() > 0,
    ensures
        r@ == replace_all(s@, from@, to@),
{
    let cs = chars_of(s);
    let fs = chars_of(from);
    let mut out = String::new();
    let mut i: usize = 0;
    assert(s@.skip(0) =~= s@);
    while i < cs.len()
        invariant
            i <= cs.len(),
            cs@ == s@,
            fs@ == from@,
            fs@.len() > 0,
            replace_all(s@, from@, to@) == out@ + replace_all(s@.skip(i as int), from@, to@),
        decreases cs.len() - i,
    {
        let ghost rest = s@.skip(i as int);
        if occurs_at_exec(&cs, &fs, i) {
            proof {
                assert(rest.subrange(0, from@.len() as int) =~= s@.subrange(
                    i as int,
                    i + from@.len(),
                ));
                assert(rest.skip(from@.len() as int) =~= s@.skip(i + fs.len()));
            }
            push_str(&mut out, to);
            i += fs.len();
        } else {
            proof {
                if starts_with(rest, from@) {
                    assert(rest.subrange(0, from@.len() as int) =~= s@.subrange(
                        i as int,
                        i + from@.len(),
                    ));
                }
                assert(rest.skip(1) =~= s@.skip(i + 1));
            }
            push_char(&mut out, cs[i]);
            i += 1;
        }
    }
    assert(s@.skip(i as int).len() == 0);
    out
}

/// Pieces of `cs` split at the non-empty pattern `p` (Rust's `str::split`).
pub fn split_chars(cs: &Vec<char>, p: &Vec<char>) -> (r: Vec<String>)
    requires
        p.len() > 0,
    ensures
        views(r@) == split(cs@, p@),
{
    let mut out: Vec<String> = Vec::new();
    let mut start: usize = 0;
    let mut done = false;
    assert(cs@.skip(0) =~= cs@);
    assert(views(out@) + split(cs@, p@) =~= split(cs@, p@));
    while !done
        invariant
            start <= cs.len(),
            p.len() > 0,
            !done ==> split(cs@, p@) == views(out@) + split(cs@.skip(start as int), p@),
            done ==> split(cs@, p@) == views(out@),
        decreases cs.len() - start + (if done { 0int } else { 1int }),
    {
        let ghost rest = cs@.skip(start as int);
        let ghost before = out@;
        let k = find_from(cs, p, start);
        proof {
            assert forall|j: int| 0 <= j < k - start implies !occurs_at(rest, p@, j) by {
                assert(!occurs_at(cs@, p@, start + j));
                if occurs_at(rest, p@, j) {
                    assert(rest.subrange(j, j + p@.len()) =~= cs@.subrange(
                        start + j,
                        start + j + p@.len(),
                    ));
                }
            }
        }
        if occurs_at_exec(cs, p, k) {
            proof {
                assert(rest.subrange(k - start, k - start + p@.len()) =~= cs@.subrange(
                    k as int,
                    k + p@.len(),
                ));
                lemma_split_step(rest, p@, k - start);
                assert(rest.take(k - start) =~= cs@.subrange(start as int, k as int));
                assert(rest.skip(k - start + p@.len()) =~= cs@.skip(k + p@.len()));
            }
            let piece = string_from(cs, start, k);
            out.push(piece);
            proof {
                assert(views(out@) =~= views(before).push(piece@));
                assert(views(out@) + split(cs@.skip(k + p@.len()), p@) =~= views(before) + (seq![piece@] + split(cs@.skip(k + p@.len()), p@)));
            }
            start = k + p.len();
        } else {
            proof {
                assert forall|j: int| 0 <= j <= rest.len() implies !occurs_at(rest, p@, j) by {
                    if j < k - start {
                    } else {
                        assert(j + p@.len() > rest.len());
                    }
                }
                lemma_split_last(rest, p@);
                assert(rest =~= cs@.subrange(start as int, cs@.len() as int));
            }
            let piece = string_from(cs, start, cs.len());
            out.push(piece);
            proof {
                assert(views(out@) =~= views(before).push(piece@));
                assert(views(out@) =~= views(before) + seq![piece@]);
            }
            done = true;
        }
    }
    out
}

/// Rust's `str::split` with a non-empty string pattern.
pub fn str_split(s: &str, p: &str) -> (r: Vec<String>)
    requires
        p@.len() > 0,
    ensures
        views(r@) == split(s@, p@),
{
    let cs = chars_of(s);
    let ps = chars_of(p);
    split_chars(&cs, &ps)
}

/// Rust's `str::lines` over a character vector.
pub fn lines_chars(cs: &Vec<char>) -> (r: Vec<String>)
    ensures
        views(r@) == lines(cs@),
{
    let mut out: Vec<String> = Vec::new();
    let mut start: usize = 0;
    assert(cs@.skip(0) =~= cs@);
    assert(views(out@) + lines(cs@) =~= lines(cs@));
    while start < cs.len()
        invariant
            start <= cs.len(),
            lines(cs@) == views(out@) + lines(cs@.skip(start as int)),
        decreases cs.len() - start,
    {
        let ghost rest = cs@.skip(start as int);
        let ghost before = out@;
        let mut k = start;
        while k < cs.len() && cs[k] != '\n'
            invariant
                start <= k <= cs.len(),
                forall|j: int| start <= j < k ==> cs@[j] != '\n',
            decreases cs.len() - k,
        {
            k += 1;
        }
        if k < cs.len() {
            let hi = if k > start && cs[k - 1] == '\r' {
                k - 1
            } else {
                k
            };
            proof {
                assert forall|j: int| 0 <= j < k - start implies rest[j] != '\n' by {
                    assert(rest[j] == cs@[start + j]);
                }
                lemma_lines_step(rest, k - start);
                assert(rest.take(k - start) =~= cs@.subrange(start as int, k as int));
                if k > start && cs@[k - 1] == '\r' {
                    assert(strip_cr(rest.take(k - start)) =~= cs@.subrange(start as int, hi as int));
                } else {
                    assert(strip_cr(rest.take(k - start)) =~= cs@.subrange(start as int, hi as int));
                }
                assert(rest.skip(k - start + 1) =~= cs@.skip(k + 1));
            }
            let piece = string_from(cs, start, hi);
            out.push(piece);
            proof {
                assert(views(out@) =~= views(before).push(piece@));
                assert(views(out@) + lines(cs@.skip(k + 1)) =~= views(before) + (seq![piece@]
                    + lines(cs@.skip(k + 1))));
            }
            start = k + 1;
        } else {
            proof {
                assert forall|j: int| 0 <= j < rest.len() implies rest[j] != '\n' by {
                    assert(rest[j] == cs@[start + j]);
                }
                lemma_lines_last(rest);
                assert(rest =~= cs@.subrange(start as int, cs@.len() as int));
            }
            let piece = string_from(cs, start, cs.len());
            out.push(piece);
            proof {
                assert(views(out@) =~= views(before).push(piece@));
                assert(views(out@) =~= views(before) + seq![piece@]);
                assert(cs@.skip(cs@.len() as int).len() == 0);
            }
            start = cs.len();
        }
    }
    assert(cs@.skip(start as int).len() == 0);
    assert(views(out@) + lines(cs@.skip(start as int)) =~= views(out@));
    out
}

/// Rust's `str::lines`.
pub fn str_lines(s: &str) -> (r: Vec<String>)
    ensures
        views(r@) == lines(s@),
{
    let cs = chars_of(s);
    lines_chars(&cs)
}

/// The digit character of `d`.
pub fn digit_char_exec(d: u128) -> (c: char)
    requires
        d < 10,
    ensures
        c == digit_char(d as int),
{
    let b: u8 = d as u8;
    (b + 48) as char
}

/// The decimal representation of `n`.
pub fn decimal_string(n: u128) -> (r: String)
    ensures
        r@ == decimal(n as nat),
    decreases n,
{
    if n < 10 {
        let mut s = String::new();
        push_char(&mut s, digit_char_exec(n));
        s
    } else {
        let mut s = decimal_string(n / 10);
        push_char(&mut s, digit_char_exec(n % 10));
        s
    }
}

/// A decimal representation is never empty.
pub proof fn lemma_decimal_nonempty(n: nat)
    ensures
        decimal(n).len() >= 1,
    decreases n,
{
    if n >= 10 {
        lemma_decimal_nonempty(n / 10);
    }
}

/// The value of a digit sequence does not decrease as it grows.
pub proof fn lemma_digits_mono(t: Seq<char>, k: int)
    requires
        0 <= k <= t.len(),
        forall|i: int| 0 <= i < t.len() ==> is_ascii_digit(#[trigger] t[i]),
    ensures
        digits_value(t.take(k)) <= digits_value(t),
    decreases t.len() - k,
{
    if k < t.len() {
        let u = t.drop_last();
        assert(u.take(k) =~= t.take(k));
        assert forall|i: int| 0 <= i < u.len() implies is_ascii_digit(#[trigger] u[i]) by {
            assert(u[i] == t[i]);
        }
        lemma_digits_mono(u, k);
        assert(digits_value(t) >= digits_value(u)) by (nonlinear_arith)
            requires
                digits_value(t) == digits_value(u) * 10 + ((t.last() as u32) - ('0' as u32)) as nat,
        ;
    } else {
        assert(t.take(k) =~= t);
    }
}

/// Rust's `str::parse::<usize>`: `Some` exactly when the text is an
/// optional `+` and one or more digits whose value fits.
pub fn str_parse_usize(s: &str) -> (r: Option<usize>)
    ensures
        r matches Some(v) ==> parse_usize(s@) == Some(v as nat),
        r is None ==> parse_usize(s@) is None,
{
    let cs = chars_of(s);
    let b: usize = if cs.len() > 0 && cs[0] == '+' {
        1
    } else {
        0
    };
    let ghost body = unsigned_body(s@);
    assert(body =~= cs@.skip(b as int));
    if b == cs.len() {
        return None;
    }
    let mut acc: usize = 0;
    let mut i = b;
    assert(body.take(0) =~= Seq::<char>::empty());
    while i < cs.len()
        invariant
            b <= i <= cs.len(),
            cs@ == s@,
            body == unsigned_body(s@),
            body == cs@.skip(b as int),
            forall|j: int| b <= j < i ==> is_ascii_digit(cs@[j]),
            acc as nat == digits_value(body.take(i - b)),
        decreases cs.len() - i,
    {
        let c = cs[i];
        if !('0' <= c && c <= '9') {
            assert(!is_ascii_digit(body[i - b]));
            assert(!all_digits(body));
            assert(parse_usize(s@) is None);
            return None;
        }
        let d: usize = (c as u32 - 48) as usize;
        assert(body.take(i - b + 1).drop_last() =~= body.take(i - b));
        assert(body.take(i - b + 1).last() == c);
        match acc.checked_mul(10) {
            Some(m) => match m.checked_add(d) {
                Some(v) => {
                    acc = v;
                },
                None => {
                    proof {
                        assert(digits_value(body.take(i - b + 1)) > usize::MAX);
                        if all_digits(body) {
                            lemma_digits_mono(body, i - b + 1);
                        }
                        assert(parse_usize(s@) is None);
                    }
                    return None;
                },
            },
            None => {
                proof {
                    assert(digits_value(body.take(i - b + 1)) > usize::MAX) by (nonlinear_arith)
                        requires
                            acc * 10 > usize::MAX,
                            digits_value(body.take(i - b + 1)) == acc * 10 + d,
                    ;
                    if all_digits(body) {
                        lemma_digits_mono(body, i - b + 1);
                    }
                    assert(parse_usize(s@) is None);
                }
                return None;
            },
        }
        i += 1;
    }
    assert(body.take(i - b) =~= body);
    assert forall|j: int| 0 <= j < body.len() implies is_ascii_digit(#[trigger] body[j]) by {
        assert(body[j] == cs@[b + j]);
    }
    Some(acc)
}

/// `s` padded on the right with spaces to `w` characters.
pub fn pad_right_exec(s: &str, w: usize) -> (r: String)
    ensures
        r@ == pad_right(s@, w as nat),
{
    let mut out = to_owned(s);
    let n = s.unicode_len();
    if n >= w {
        return out;
    }
    let mut k = n;
    while k < w
        invariant
            n <= k <= w,
            n == s@.len(),
            out@ == s@ + Seq::new((k - n) as nat, |i: int| ' '),
        decreases w - k,
    {
        push_char(&mut out, ' ');
        assert(s@ + Seq::new((k + 1 - n) as nat, |i: int| ' ') =~= (s@ + Seq::new(
            (k - n) as nat,
            |i: int| ' ',
        )).push(' '));
        k += 1;
    }
    out
}

/// `s` padded on the left with spaces to `w` characters.
pub fn pad_left_exec(s: &str, w: usize) -> (r: String)
    ensures
        r@ == pad_left(s@, w as nat),
{
    let n = s.unicode_len();
    if n >= w {
        return to_owned(s);
    }
    let mut out = String::new();
    let mut k: usize = 0;
    while k < w - n
        invariant
            n < w,
            n == s@.len(),
            k <= w - n,
            out@ == Seq::new(k as nat, |i: int| ' '),
        decreases w - n - k,
    {
        push_char(&mut out, ' ');
        assert(Seq::new((k + 1) as nat, |i: int| ' ') =~= Seq::new(k as nat, |i: int| ' ').push(' '));
        k += 1;
    }
    push_str(&mut out, s);
    out
}

/// The strings of `ps` joined with `sep`.
pub fn join_exec(ps: &Vec<String>, sep: &str) -> (r: String)
    ensures
        r@ == join(views(ps@), sep@),
{
    let mut out = String::new();
    let mut i: usize = 0;
    while i < ps.len()
        invariant
            i <= ps.len(),
            out@ == join(views(ps@).take(i as int), sep@),
        decreases ps.len() - i,
    {
        let ghost pre = views(ps@).take(i as int);
        assert(views(ps@).take(i + 1) =~= pre.push(ps@[i as int]@));
        if i > 0 {
            push_str(&mut out, sep);
            proof {
                lemma_join_push(pre, sep@, ps@[i as int]@);
            }
        } else {
            assert(pre.push(ps@[i as int]@) =~= seq![ps@[i as int]@]);
        }
        push_str(&mut out, ps[i].as_str());
        i += 1;
    }
    assert(views(ps@).take(i as int) =~= views(ps@));
    out
}

/// The number of UTF-8 bytes of a character.
pub open spec fn char_width(c: char) -> nat {
    vstd::utf8::encode_scalar(c as u32).len()
}

/// The number of UTF-8 bytes of a character sequence (what `str::len`
/// returns).
pub open spec fn byte_len(s: Seq<char>) -> nat {
    vstd::utf8::encode_utf8(s).len()
}

/// The number of leading characters of `s` whose UTF-8 encoding fits in
/// `budget` bytes.
pub open spec fn fit_prefix(s: Seq<char>, budget: int) -> nat
    decreases s.len(),
{
    if s.len() == 0 || char_width(s[0]) > budget {
        0
    } else {
        1 + fit_prefix(s.skip(1), budget - char_width(s[0]))
    }
}

/// The UTF-8 width of a character.
pub fn char_width_exec(c: char) -> (w: usize)
    ensures
        w == char_width(c),
        1 <= w <= 4,
{
    let v = c as u32;
    if v <= 0x7f {
        1
    } else if v <= 0x7ff {
        2
    } else if v <= 0xffff {
        3
    } else {
        4
    }
}

/// `byte_len` distributes over concatenation.
pub proof fn lemma_byte_len_add(a: Seq<char>, b: Seq<char>)
    ensures
        byte_len(a + b) == byte_len(a) + byte_len(b),
    decreases a.len(),
{
    if a.len() == 0 {
        assert(a + b =~= b);
    } else {
        assert((a + b).drop_first() =~= a.drop_first() + b);
        lemma_byte_len_add(a.drop_first(), b);
    }
}

/// `byte_len` of one character.
pub proof fn lemma_byte_len_one(c: char)
    ensures
        byte_len(seq![c]) == char_width(c),
{
    let t = seq![c];
    assert(t.drop_first() =~= Seq::<char>::empty());
    assert(t[0] == c);
    assert(vstd::utf8::encode_utf8(t.drop_first()) == Seq::<u8>::empty());
    assert(vstd::utf8::encode_scalar(c as u32) + Seq::<u8>::empty() =~= vstd::utf8::encode_scalar(c as u32));
}

/// How many leading characters of `cs` fit in `budget` UTF-8 bytes.
pub fn fit_prefix_exec(cs: &Vec<char>, budget: usize) -> (k: usize)
    ensures
        k == fit_prefix(cs@, budget as int),
        k <= cs.len(),
{
    let mut k: usize = 0;
    let mut left: usize = budget;
    assert(cs@.skip(0) =~= cs@);
    while k < cs.len() && char_width_exec(cs[k]) <= left
        invariant
            k <= cs.len(),
            left <= budget,
            fit_prefix(cs@, budget as int) == k + fit_prefix(cs@.skip(k as int), left as int),
        decreases cs.len() - k,
    {
        proof {
            let t = cs@.skip(k as int);
            assert(t[0] == cs@[k as int]);
            assert(t.skip(1) =~= cs@.skip(k + 1));
        }
        left = left - char_width_exec(cs[k]);
        k += 1;
    }
    proof {
        let t = cs@.skip(k as int);
        if k < cs.len() {
            assert(t[0] == cs@[k as int]);
        }
    }
    k
}

/// A character takes at most four UTF-8 bytes.
pub proof fn lemma_byte_len_bound(s: Seq<char>)
    ensures
        byte_len(s) <= 4 * s.len(),
    decreases s.len(),
{
    if s.len() > 0 {
        lemma_byte_len_bound(s.drop_first());
    }
}

/// The number of UTF-8 bytes of `cs`, exactly.
pub fn byte_len_exact(cs: &Vec<char>) -> (n: u128)
    ensures
        n == byte_len(cs@),
{
    let mut n: u128 = 0;
    let mut i: usize = 0;
    while i < cs.len()
        invariant
            i <= cs.len(),
            n == byte_len(cs@.take(i as int)),
            n <= 4 * i,
        decreases cs.len() - i,
    {
        proof {
            assert(cs@.take(i + 1) =~= cs@.take(i as int) + seq![cs@[i as int]]);
            lemma_byte_len_add(cs@.take(i as int), seq![cs@[i as int]]);
            lemma_byte_len_one(cs@[i as int]);
        }
        n = n + char_width_exec(cs[i]) as u128;
        i += 1;
    }
    assert(cs@.take(i as int) =~= cs@);
    n
}

/// `s` without leading or trailing `c`s (`str::trim_matches` with a
/// character).
pub fn trim_char_exec(s: &str, c: char) -> (r: String)
    ensures
        r@ == trim_end_char(trim_start_char(s@, c), c),
{
    let cs = chars_of(s);
    let mut b: usize = 0;
    assert(cs@.skip(0) =~= cs@);
    while b < cs.len() && cs[b] == c
        invariant
            b <= cs.len(),
            cs@ == s@,
            trim_start_char(s@, c) == trim_start_char(cs@.skip(b as int), c),
        decreases cs.len() - b,
    {
        assert(cs@.skip(b as int).skip(1) =~= cs@.skip(b + 1));
        b += 1;
    }
    assert(b < cs.len() ==> cs@.skip(b as int)[0] == cs@[b as int]);
    let mut e = cs.len();
    assert(cs@.skip(b as int) =~= cs@.subrange(b as int, e as int));
    while e > b && cs[e - 1] == c
        invariant
            b <= e <= cs.len(),
            trim_end_char(cs@.skip(b as int), c) == trim_end_char(cs@.subrange(b as int, e as int), c),
        decreases e - b,
    {
        assert(cs@.subrange(b as int, e as int).drop_last() =~= cs@.subrange(b as int, e - 1));
        e -= 1;
    }
    proof {
        if e > b {
            assert(cs@.subrange(b as int, e as int).last() == cs@[e - 1]);
        }
    }
    string_from(&cs, b, e)
}

/// Index of the first `c` in `cs`, or its length when there is none.
pub fn find_char_exec(cs: &Vec<char>, c: char) -> (k: usize)
    ensures
        k == find_char(cs@, c),
        k <= cs.len(),
        forall|j: int| 0 <= j < k ==> cs@[j] != c,
        k < cs.len() ==> cs@[k as int] == c,
{
    let mut k: usize = 0;
    while k < cs.len() && cs[k] != c
        invariant
            k <= cs.len(),
            forall|j: int| 0 <= j < k ==> cs@[j] != c,
        decreases cs.len() - k,
    {
        k += 1;
    }
    proof {
        lemma_find_char_is(cs@, c, k as int);
    }
    k
}

/// What `trim` leaves does not start with whitespace.
pub proof fn lemma_trim_head(s: Seq<char>)
    ensures
        trim(s).len() > 0 ==> !is_ws(trim(s)[0]),
{
    lemma_trim_start_head(s);
    lemma_trim_end_prefix(trim_start(s));
}

/// What `trim_start` leaves does not start with whitespace.
proof fn lemma_trim_start_head(s: Seq<char>)
    ensures
        trim_start(s).len() > 0 ==> !is_ws(trim_start(s)[0]),
    decreases s.len(),
{
    if s.len() > 0 && is_ws(s[0]) {
        lemma_trim_start_head(s.skip(1));
    }
}

/// `trim_end` keeps a prefix.
proof fn lemma_trim_end_prefix(s: Seq<char>)
    ensures
        trim_end(s).len() <= s.len(),
        trim_end(s) == s.take(trim_end(s).len() as int),
    decreases s.len(),
{
    if s.len() > 0 && is_ws(s.last()) {
        lemma_trim_end_prefix(s.drop_last());
        let k = trim_end(s.drop_last()).len() as int;
        assert(s.drop_last().take(k) =~= s.take(k));
    } else {
        assert(s.take(s.len() as int) =~= s);
    }
}

/// Containing a one-character text is containing that character.
pub proof fn lemma_contains_char(s: Seq<char>, c: char)
    ensures
        contains(s, seq![c]) == has_char(s, c),
{
    if contains(s, seq![c]) {
        let j = choose|j: int| occurs_at(s, seq![c], j);
        assert(s.subrange(j, j + 1)[0] == s[j]);
    }
    if has_char(s, c) {
        let j = choose|j: int| 0 <= j < s.len() && s[j] == c;
        assert(s.subrange(j, j + 1) =~= seq![c]);
        assert(occurs_at(s, seq![c], j));
    }
}

/// `s` with every leading copy of `p` removed (`str::trim_start_matches`).
pub fn trim_start_matches_exec(s: &str, p: &str) -> (r: String)
    ensures
        r@ == trim_start_matches(s@, p@),
{
    let cs = chars_of(s);
    let ps = chars_of(p);
    if ps.len() == 0 {
        return to_owned(s);
    }
    let mut a: usize = 0;
    assert(cs@.skip(0) =~= cs@);
    while occurs_at_exec(&cs, &ps, a)
        invariant
            a <= cs.len(),
            ps@ == p@,
            ps@.len() > 0,
            trim_start_matches(s@, p@) == trim_start_matches(cs@.skip(a as int), p@),
            cs@ == s@,
        decreases cs.len() - a,
    {
        proof {
            let t = cs@.skip(a as int);
            assert(t.subrange(0, ps@.len() as int) =~= cs@.subrange(a as int, a + ps@.len()));
            assert(t.skip(ps@.len() as int) =~= cs@.skip(a + ps@.len()));
        }
        a = a + ps.len();
    }
    proof {
        let t = cs@.skip(a as int);
        if starts_with(t, p@) {
            assert(t.subrange(0, ps@.len() as int) =~= cs@.subrange(a as int, a + ps@.len()));
        }
    }
    assert(cs@.subrange(a as int, cs.len() as int) =~= cs@.skip(a as int));
    string_from(&cs, a, cs.len())
}

/// `s` without its first character.
pub fn str_skip_first(s: &str) -> (r: String)
    requires
        s@.len() > 0,
    ensures
        r@ == s@.skip(1),
{
    let cs = chars_of(s);
    assert(cs@.subrange(1, cs.len() as int) =~= s@.skip(1));
    string_from(&cs, 1, cs.len())
}


/// The whitespace-separated words of a text so far: those completed, and
/// the one being read.
pub open spec fn ws_scan(s: Seq<char>) -> (Seq<Seq<char>>, Seq<char>)
    decreases s.len(),
{
    if s.len() == 0 {
        (seq![], seq![])
    } else {
        let (done, cur) = ws_scan(s.drop_last());
        if is_ws(s.last()) {
            if cur.len() > 0 {
                (done.push(cur), seq![])
            } else {
                (done, seq![])
            }
        } else {
            (done, cur.push(s.last()))
        }
    }
}

/// The whitespace-separated words of a text, in order (Rust's
/// `str::split_whitespace`).
pub open spec fn ws_words(s: Seq<char>) -> Seq<Seq<char>> {
    let (done, cur) = ws_scan(s);
    if cur.len() > 0 {
        done.push(cur)
    } else {
        done
    }
}

/// The whitespace-separated words of a string slice.
pub fn split_whitespace_exec(s: &str) -> (r: Vec<String>)
    ensures
        views(r@) == ws_words(s@),
{
    let cs = chars_of(s);
    let mut done: Vec<String> = Vec::new();
    let mut cur = String::new();
    let mut i: usize = 0;
    while i < cs.len()
        invariant
            i <= cs@.len(),
            cs@ == s@,
            views(done@) == ws_scan(s@.take(i as int)).0,
            cur@ == ws_scan(s@.take(i as int)).1,
        decreases cs.len() - i,
    {
        proof {
            assert(s@.take(i + 1).drop_last() =~= s@.take(i as int));
            assert(s@.take(i + 1).last() == cs@[i as int]);
        }
        let c = cs[i];
        if is_ws_exec(c) {
            if cur.unicode_len() > 0 {
                let w = cur;
                let ghost before = done@;
                done.push(w);
                proof {
                    assert(views(done@) =~= views(before).push(w@));
                }
                cur = String::new();
            } else {
                cur = String::new();
            }
        } else {
            push_char(&mut cur, c);
        }
        i += 1;
    }
    assert(s@.take(i as int) =~= s@);
    if cur.unicode_len() > 0 {
        let ghost before = done@;
        done.push(cur);
        proof {
            assert(views(done@) =~= views(before).push(done@.last()@));
        }
    }
    done
}

} // verus!
