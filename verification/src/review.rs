//! Automated review of a unified diff: comments on the lines it adds.
use vstd::prelude::*;

use crate::text::{
    contains, lines, push_str, split, starts_with, str_contains, str_lines, str_split,
    str_starts_with, str_trim, to_owned, trim, trim_start_matches, trim_start_matches_exec,
    views,
};

verus! {

/// A review comment on a line of a file.
#[derive(Debug, Clone)]
pub struct ReviewComment {
    pub file: String,
    pub line: Option<u32>,
    pub text: String,
    pub severity: String,
}

/// The comments of a review.
#[derive(Debug, Clone)]
pub struct ReviewResult {
    pub comments: Vec<ReviewComment>,
}

/// A comment as a value: file, line, text and severity.
pub type Remark = (Seq<char>, nat, Seq<char>, Seq<char>);

/// The comments on an added line of code at `line` of `file`: a TODO or
/// FIXME marker, an `unwrap()` call, a debug print.
pub open spec fn remarks_on(file: Seq<char>, line: nat, code: Seq<char>) -> Seq<Remark> {
    (if contains(code, "TODO"@) || contains(code, "FIXME"@) {
        seq![(file, line, "Found TODO/FIXME: `"@ + trim(code) + "`"@, "info"@)]
    } else {
        seq![]
    }) + (if contains(code, "unwrap()"@) {
        seq![(file, line, "Consider using proper error handling instead of `unwrap()`"@, "warning"@)]
    } else {
        seq![]
    }) + (if contains(code, "println!"@) || contains(code, "console.log"@) {
        seq![(file, line, "Debug print statement found — remove before merge"@, "warning"@)]
    } else {
        seq![]
    })
}

/// The state of a review after some lines: the current file, the current
/// line number and the comments so far.
pub type ReviewState = (Seq<char>, nat, Seq<Remark>);

/// Reading one more diff line: a `diff --git` header names the file (its
/// fourth space-separated word, without leading `b/`); `---` lines are
/// skipped; an added line is reviewed and counted; a context line is
/// counted; a removed line is not.
pub open spec fn review_step(st: ReviewState, l: Seq<char>) -> ReviewState {
    if starts_with(l, "diff --git"@) {
        if split(l, " "@).len() > 3 {
            (trim_start_matches(split(l, " "@)[3], "b/"@), st.1, st.2)
        } else {
            st
        }
    } else if starts_with(l, "---"@) {
        st
    } else if starts_with(l, "+"@) && !starts_with(l, "+++"@) {
        (st.0, st.1 + 1, st.2 + remarks_on(st.0, st.1, l.skip(1)))
    } else if !starts_with(l, "-"@) {
        (st.0, st.1 + 1, st.2)
    } else {
        st
    }
}

/// The state after reviewing the given lines.
pub open spec fn review_scan(ls: Seq<Seq<char>>) -> ReviewState
    decreases ls.len(),
{
    if ls.len() == 0 {
        (seq![], 0, seq![])
    } else {
        review_step(review_scan(ls.drop_last()), ls.last())
    }
}

/// The comments on a diff (none on a blank one).
pub open spec fn review_of(diff: Seq<char>) -> Seq<Remark> {
    if trim(diff).len() == 0 {
        seq![]
    } else {
        review_scan(lines(diff)).2
    }
}

/// Whether a comment is the given remark.
pub open spec fn is_remark(c: ReviewComment, r: Remark) -> bool {
    &&& c.file@ == r.0
    &&& c.line == Some(r.1 as u32)
    &&& c.text@ == r.2
    &&& c.severity@ == r.3
}

/// The line number never exceeds the number of lines read.
proof fn lemma_review_line_bound(ls: Seq<Seq<char>>)
    ensures
        review_scan(ls).1 <= ls.len(),
    decreases ls.len(),
{
    if ls.len() > 0 {
        lemma_review_line_bound(ls.drop_last());
    }
}

/// A comment of the review.
fn comment(file: &String, line: u32, text: String, severity: &str) -> (c: ReviewComment)
    ensures
        c.file@ == file@,
        c.line == Some(line),
        c.text@ == text@,
        c.severity@ == severity@,
{
    ReviewComment { file: file.clone(), line: Some(line), text, severity: to_owned(severity) }
}

/// Review an added line of code.
fn remark_exec(file: &String, line: u32, code: &str, out: &mut Vec<ReviewComment>)
    ensures
        final(out)@.len() == old(out)@.len() + remarks_on(file@, line as nat, code@).len(),
        forall|i: int| 0 <= i < old(out)@.len() ==> #[trigger] final(out)@[i] == old(out)@[i],
        forall|i: int|
            0 <= i < remarks_on(file@, line as nat, code@).len() ==> is_remark(
                #[trigger] final(out)@[old(out)@.len() + i],
                remarks_on(file@, line as nat, code@)[i],
            ),
{
    let ghost start = out@;
    let ghost rs = remarks_on(file@, line as nat, code@);
    if str_contains(code, "TODO") || str_contains(code, "FIXME") {
        let mut t = to_owned("Found TODO/FIXME: `");
        let tc = str_trim(code);
        push_str(&mut t, tc.as_str());
        push_str(&mut t, "`");
        out.push(comment(file, line, t, "info"));
    }
    if str_contains(code, "unwrap()") {
        let t = to_owned("Consider using proper error handling instead of `unwrap()`");
        out.push(comment(file, line, t, "warning"));
    }
    if str_contains(code, "println!") || str_contains(code, "console.log") {
        let t = to_owned("Debug print statement found — remove before merge");
        out.push(comment(file, line, t, "warning"));
    }
}

/// Review a unified diff: a comment for each TODO/FIXME marker,
/// `unwrap()` call and debug print on an added line, with the file and
/// the line number it stands at in the new text.
pub fn review_diff(diff_content: &str) -> (r: ReviewResult)
    requires
        lines(diff_content@).len() <= u32::MAX,
    ensures
        r.comments@.len() == review_of(diff_content@).len(),
        forall|i: int|
            0 <= i < r.comments@.len() ==> is_remark(
                #[trigger] r.comments@[i],
                review_of(diff_content@)[i],
            ),
{
    proof {
        reveal_strlit(" ");
        reveal_strlit("+");
    }
    let trimmed = str_trim(diff_content);
    if trimmed.unicode_len() == 0 {
        return ReviewResult { comments: Vec::new() };
    }
    let ls = str_lines(diff_content);
    let mut comments: Vec<ReviewComment> = Vec::new();
    let mut current_file = String::new();
    let mut current_line: u32 = 0;
    let mut i: usize = 0;
    while i < ls.len()
        invariant
            i <= ls.len() <= u32::MAX,
            views(ls@) == lines(diff_content@),
            current_file@ == review_scan(views(ls@).take(i as int)).0,
            current_line == review_scan(views(ls@).take(i as int)).1,
            comments@.len() == review_scan(views(ls@).take(i as int)).2.len(),
            forall|j: int|
                0 <= j < comments@.len() ==> is_remark(
                    #[trigger] comments@[j],
                    review_scan(views(ls@).take(i as int)).2[j],
                ),
        decreases ls.len() - i,
    {
        let ghost pre = views(ls@).take(i as int);
        proof {
            reveal_strlit(" ");
            reveal_strlit("+");
            assert(views(ls@).take(i + 1).drop_last() =~= pre);
            assert(views(ls@).take(i + 1).last() == ls@[i as int]@);
            lemma_review_line_bound(pre);
        }
        let line = ls[i].as_str();
        if str_starts_with(line, "diff --git") {
            let parts = str_split(line, " ");
            if parts.len() > 3 {
                assert(views(parts@)[3] == parts@[3]@);
                current_file = trim_start_matches_exec(parts[3].as_str(), "b/");
            }
        } else if str_starts_with(line, "---") {
        } else if str_starts_with(line, "+") && !str_starts_with(line, "+++") {
            let code = crate::text::str_skip_first(line);
            let ghost before = comments@;
            remark_exec(&current_file, current_line, code.as_str(), &mut comments);
            let ghost added = remarks_on(current_file@, current_line as nat, code@);
            assert(review_scan(views(ls@).take(i + 1)).2 == review_scan(pre).2 + added);
            assert forall|j: int| 0 <= j < comments@.len() implies is_remark(
                #[trigger] comments@[j],
                review_scan(views(ls@).take(i + 1)).2[j],
            ) by {
                if j < before.len() {
                    assert(comments@[j] == before[j]);
                } else {
                    let k = j - before.len();
                    assert(is_remark(comments@[before.len() + k], added[k]));
                }
            }
            current_line = current_line + 1;
        } else if !str_starts_with(line, "-") {
            current_line = current_line + 1;
        }
        i += 1;
    }
    assert(views(ls@).take(i as int) =~= views(ls@));
    ReviewResult { comments }
}

} // verus!
