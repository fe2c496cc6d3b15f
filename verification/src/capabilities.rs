//! Agent capabilities: bounded self-correction, approval modes, context
//! compaction, test scaffolding and project scouting.
use vstd::prelude::*;

use crate::text::{
    byte_len, byte_len_exact, chars_of, contains, decimal, decimal_string, lines, parse_usize,
    push_str, replace_all, split, starts_with, str_contains, str_eq, str_lines, str_parse_usize,
    str_replace, str_split, str_starts_with, str_trim, string_from, to_owned, trim, views,
};

verus! {

// ---------------------------------------------------------------------
// Self-correction
// ---------------------------------------------------------------------

/// Counts compile-and-retry attempts against a fixed budget.
#[derive(Debug, Clone)]
pub struct SelfCorrector {
    max_retries: usize,
    retry_count: usize,
}

/// The attempts a budget of `max` leaves after `count`, never negative.
pub open spec fn retries_left(max: usize, count: usize) -> nat {
    if count <= max {
        (max - count) as nat
    } else {
        0
    }
}

/// For a corrector with the usual budget of three: another attempt is
/// allowed exactly when attempts are left, exactly when fewer than three
/// were recorded; and each recorded attempt gives its retry message
/// exactly when another is still allowed after it.
pub proof fn lemma_retry_budget(c: SelfCorrector, after: SelfCorrector, r: Option<String>, error: Seq<char>)
    requires
        c.max() == 3,
        after.max() == c.max(),
        after.count() == c.count() + 1,
        after.count() < after.max() ==> (r matches Some(m) && m@ == "[Retry "@
            + decimal(after.count() as nat) + "/"@ + decimal(after.max() as nat)
            + "] Compile error: "@ + error),
        after.count() >= after.max() ==> r is None,
    ensures
        (c.count() < c.max()) == (retries_left(c.max(), c.count()) > 0),
        (c.count() < c.max()) == (c.count() < 3),
        r is Some <==> after.count() < after.max(),
        r is Some <==> c.count() < 2,
{
}

impl SelfCorrector {
    /// The retry budget.
    pub closed spec fn max(&self) -> usize {
        self.max_retries
    }

    /// Attempts recorded so far.
    pub closed spec fn count(&self) -> usize {
        self.retry_count
    }

    /// A corrector with a budget of three attempts and none recorded.
    pub fn new() -> (r: Self)
        ensures
            r.max() == 3,
            r.count() == 0,
    {
        SelfCorrector { max_retries: 3, retry_count: 0 }
    }

    /// Attempts left before the budget is exhausted (never negative).
    pub fn attempts_left(&self) -> (r: usize)
        ensures
            r == retries_left(self.max(), self.count()),
    {
        self.max_retries.saturating_sub(self.retry_count)
    }

    /// Whether another attempt is allowed.
    pub fn should_retry(&self) -> (r: bool)
        ensures
            r == (self.count() < self.max()),
    {
        self.retry_count < self.max_retries
    }

    /// Record a failed attempt with its error. While the budget lasts the
    /// result is the retry message `[Retry n/max] Compile error: <error>`;
    /// once it is spent the result is `None`.
    pub fn record_attempt(&mut self, error: &str) -> (r: Option<String>)
        requires
            old(self).count() < usize::MAX,
        ensures
            final(self).max() == old(self).max(),
            final(self).count() == old(self).count() + 1,
            final(self).count() < final(self).max() ==> (r matches Some(m) && m@ == "[Retry "@
                + decimal(final(self).count() as nat) + "/"@ + decimal(final(self).max() as nat)
                + "] Compile error: "@ + error@),
            final(self).count() >= final(self).max() ==> r is None,
    {
        self.retry_count += 1;
        if self.retry_count < self.max_retries {
            let mut msg = to_owned("[Retry ");
            let a = decimal_string(self.retry_count as u128);
            push_str(&mut msg, a.as_str());
            push_str(&mut msg, "/");
            let b = decimal_string(self.max_retries as u128);
            push_str(&mut msg, b.as_str());
            push_str(&mut msg, "] Compile error: ");
            push_str(&mut msg, error);
            Some(msg)
        } else {
            None
        }
    }

    /// The location (file and line) of the first compiler error in
    /// `stderr`, or failing that the message of the first `error: ` line.
    pub fn extract_error_location(stderr: &str) -> (r: Option<(String, usize)>)
        ensures
            r matches Some(p) ==> error_location(stderr@) == Some((p.0@, p.1 as nat)),
            r is None ==> error_location(stderr@) is None,
    {
        let ls = str_lines(stderr);
        let ghost all = views(ls@);
        let mut i: usize = 0;
        assert(all.skip(0) =~= all);
        while i < ls.len()
            invariant
                i <= ls.len(),
                all == views(ls@),
                all == lines(stderr@),
                first_location(all) == first_location(all.skip(i as int)),
            decreases ls.len() - i,
        {
            proof {
                assert(all.skip(i as int)[0] == ls@[i as int]@);
                assert(all.skip(i as int).drop_first() =~= all.skip(i + 1));
            }
            let found = location_of_line(ls[i].as_str());
            if found.is_some() {
                return found;
            }
            i += 1;
        }
        assert(all.skip(i as int).len() == 0);
        let mut i: usize = 0;
        while i < ls.len()
            invariant
                i <= ls.len(),
                all == views(ls@),
                all == lines(stderr@),
                first_location(all) is None,
                first_error_message(all) == first_error_message(all.skip(i as int)),
            decreases ls.len() - i,
        {
            proof {
                assert(all.skip(i as int)[0] == ls@[i as int]@);
                assert(all.skip(i as int).drop_first() =~= all.skip(i + 1));
            }
            let line = ls[i].as_str();
            if str_starts_with(line, "error: ") {
                proof {
                    reveal_strlit("error: ");
                }
                let cs = chars_of(line);
                let rest = string_from(&cs, 7, cs.len());
                proof {
                    assert(cs@.subrange(7, cs@.len() as int) =~= line@.skip(7));
                }
                return Some((rest, 0));
            }
            i += 1;
        }
        None
    }
}

/// The location named by one line of compiler output: a line that
/// mentions `error` and `-->`, whose text after the first `-->`, trimmed,
/// has a `:`; the file is what precedes the first `:` and the line number
/// what follows it, trimmed and parsed (zero when it does not parse).
pub open spec fn line_location(l: Seq<char>) -> Option<(Seq<char>, nat)> {
    if contains(l, "error"@) && contains(l, "-->"@) {
        let parts = split(l, "-->"@);
        if parts.len() >= 2 {
            let loc = trim(parts[1]);
            let fl = split(loc, ":"@);
            if fl.len() >= 2 {
                Some(
                    (
                        fl[0],
                        match parse_usize(trim(fl[1])) {
                            Some(v) => v,
                            None => 0,
                        },
                    ),
                )
            } else {
                None
            }
        } else {
            None
        }
    } else {
        None
    }
}

/// The first location found in a list of lines.
pub open spec fn first_location(ls: Seq<Seq<char>>) -> Option<(Seq<char>, nat)>
    decreases ls.len(),
{
    if ls.len() == 0 {
        None
    } else if line_location(ls[0]) is Some {
        line_location(ls[0])
    } else {
        first_location(ls.drop_first())
    }
}

/// The message of the first line that starts with `error: `, with line 0.
pub open spec fn first_error_message(ls: Seq<Seq<char>>) -> Option<(Seq<char>, nat)>
    decreases ls.len(),
{
    if ls.len() == 0 {
        None
    } else if starts_with(ls[0], "error: "@) {
        Some((ls[0].skip(7), 0))
    } else {
        first_error_message(ls.drop_first())
    }
}

/// The error location reported by compiler output.
pub open spec fn error_location(stderr: Seq<char>) -> Option<(Seq<char>, nat)> {
    let ls = lines(stderr);
    if first_location(ls) is Some {
        first_location(ls)
    } else {
        first_error_message(ls)
    }
}

/// The location named by one line, computed.
fn location_of_line(line: &str) -> (r: Option<(String, usize)>)
    ensures
        r matches Some(p) ==> line_location(line@) == Some((p.0@, p.1 as nat)),
        r is None ==> line_location(line@) is None,
{
    if str_contains(line, "error") && str_contains(line, "-->") {
        proof {
            reveal_strlit("-->");
            reveal_strlit(":");
        }
        let parts = str_split(line, "-->");
        if parts.len() >= 2 {
            let loc = str_trim(parts[1].as_str());
            let fl = str_split(loc.as_str(), ":");
            if fl.len() >= 2 {
                let file = fl[0].clone();
                let num = str_trim(fl[1].as_str());
                let n = match str_parse_usize(num.as_str()) {
                    Some(v) => v,
                    None => 0,
                };
                proof {
                    assert(views(parts@)[1] == parts@[1]@);
                    assert(views(fl@)[0] == fl@[0]@);
                    assert(views(fl@)[1] == fl@[1]@);
                }
                return Some((file, n));
            }
        }
    }
    None
}

// ---------------------------------------------------------------------
// Approval modes
// ---------------------------------------------------------------------

/// How tool calls are approved.
#[derive(Debug, Clone, Copy, PartialEq, Eq, Structural)]
pub enum ApprovalMode {
    Normal,
    Yolo,
    Background,
}

/// How the agent runs: approval mode and parallelism.
pub struct AgentMode {
    pub approval: ApprovalMode,
    pub max_parallel_tasks: usize,
}

impl AgentMode {
    /// Ask before acting; up to four parallel tasks.
    pub fn normal() -> (r: Self)
        ensures
            r.approval == ApprovalMode::Normal,
            r.max_parallel_tasks == 4,
    {
        AgentMode { approval: ApprovalMode::Normal, max_parallel_tasks: 4 }
    }

    /// Never ask; up to eight parallel tasks.
    pub fn yolo() -> (r: Self)
        ensures
            r.approval == ApprovalMode::Yolo,
            r.max_parallel_tasks == 8,
    {
        AgentMode { approval: ApprovalMode::Yolo, max_parallel_tasks: 8 }
    }

    /// Run unattended; up to two parallel tasks.
    pub fn background() -> (r: Self)
        ensures
            r.approval == ApprovalMode::Background,
            r.max_parallel_tasks == 2,
    {
        AgentMode { approval: ApprovalMode::Background, max_parallel_tasks: 2 }
    }

    /// Only the normal mode asks for approval.
    pub fn should_prompt_for_approval(&self) -> (r: bool)
        ensures
            r == (self.approval == ApprovalMode::Normal),
    {
        match self.approval {
            ApprovalMode::Normal => true,
            _ => false,
        }
    }
}

// ---------------------------------------------------------------------
// Context compaction
// ---------------------------------------------------------------------

/// Shrinks a conversation that exceeds a token budget.
pub struct ContextCompactor {
    max_tokens: usize,
    keep_system: bool,
    keep_last_n: usize,
}

/// Estimated tokens of a text: a quarter of its UTF-8 length.
pub open spec fn tokens_of(s: Seq<char>) -> nat {
    byte_len(s) / 4
}

/// Estimated tokens of all messages.
pub open spec fn total_tokens(ms: Seq<Seq<char>>) -> nat
    decreases ms.len(),
{
    if ms.len() == 0 {
        0
    } else {
        total_tokens(ms.drop_last()) + tokens_of(ms.last())
    }
}

/// The compacted form of a conversation that is over budget: the system
/// prompt, a marker, then the last `keep` messages.
pub open spec fn compacted(ms: Seq<Seq<char>>, system_prompt: Seq<char>, keep: nat) -> Seq<Seq<char>> {
    let start = if ms.len() > keep {
        ms.len() - keep
    } else {
        0
    };
    seq!["[system]: "@ + system_prompt, "[Context compacted \u{2014} earlier messages summarized]"@]
        + ms.subrange(start as int, ms.len() as int)
}

impl ContextCompactor {
    /// The token budget.
    pub closed spec fn budget(&self) -> usize {
        self.max_tokens
    }

    /// Whether the system prompt is kept.
    pub closed spec fn keeps_system(&self) -> bool {
        self.keep_system
    }

    /// How many recent messages are kept.
    pub closed spec fn keep_count(&self) -> usize {
        self.keep_last_n
    }

    /// A compactor with the given budget that keeps the system prompt and
    /// the last five messages.
    pub fn new(max_tokens: usize) -> (r: Self)
        ensures
            r.budget() == max_tokens,
            r.keeps_system(),
            r.keep_count() == 5,
    {
        ContextCompactor { max_tokens, keep_system: true, keep_last_n: 5 }
    }

    /// The messages unchanged when they fit the budget; otherwise the
    /// system prompt (when kept), a marker, and the last messages.
    pub fn compact(&self, messages: &[String], system_prompt: &str) -> (r: Vec<String>)
        ensures
            total_tokens(views(messages@)) <= self.budget() ==> views(r@) == views(messages@),
            total_tokens(views(messages@)) > self.budget() && self.keeps_system() ==> views(r@)
                == compacted(views(messages@), system_prompt@, self.keep_count() as nat),
            total_tokens(views(messages@)) > self.budget() && !self.keeps_system() ==> views(r@)
                == compacted(views(messages@), system_prompt@, self.keep_count() as nat).drop_first(),
    {
        let ghost ms = views(messages@);
        let mut total: u128 = 0;
        let mut i: usize = 0;
        while i < messages.len()
            invariant
                i <= messages.len(),
                ms == views(messages@),
                total == total_tokens(ms.take(i as int)),
                total <= i * 0x1_0000_0000_0000_0000u128,
            decreases messages.len() - i,
        {
            let cs = chars_of(messages[i].as_str());
            let cl = cs.len();
            let n = byte_len_exact(&cs);
            proof {
                assert(ms.take(i + 1).drop_last() =~= ms.take(i as int));
                assert(ms.take(i + 1).last() == messages@[i as int]@);
                assert(n <= 4 * cs@.len()) by {
                    crate::text::lemma_byte_len_bound(cs@);
                }
                assert(n / 4 <= cs@.len()) by (nonlinear_arith)
                    requires
                        n <= 4 * cs@.len(),
                ;
                assert(cl == cs@.len());
            }
            total = total + n / 4;
            i += 1;
        }
        assert(ms.take(i as int) =~= ms);
        if total <= self.max_tokens as u128 {
            let mut out: Vec<String> = Vec::new();
            let mut k: usize = 0;
            while k < messages.len()
                invariant
                    k <= messages.len(),
                    views(out@) == views(messages@).take(k as int),
                decreases messages.len() - k,
            {
                let ghost before = out@;
                let m = messages[k].clone();
                out.push(m);
                assert(views(out@) =~= views(before).push(m@));
                assert(views(out@) =~= views(messages@).take(k + 1));
                k += 1;
            }
            assert(views(messages@).take(k as int) =~= views(messages@));
            return out;
        }
        let mut compacted_msgs: Vec<String> = Vec::new();
        if self.keep_system {
            let mut s = to_owned("[system]: ");
            push_str(&mut s, system_prompt);
            compacted_msgs.push(s);
        }
        compacted_msgs.push(to_owned("[Context compacted \u{2014} earlier messages summarized]"));
        let ghost head = views(compacted_msgs@);
        let start = if messages.len() > self.keep_last_n {
            messages.len() - self.keep_last_n
        } else {
            0
        };
        let mut k = start;
        while k < messages.len()
            invariant
                start <= k <= messages.len(),
                views(compacted_msgs@) == head + views(messages@).subrange(start as int, k as int),
            decreases messages.len() - k,
        {
            let ghost before = compacted_msgs@;
            let m = messages[k].clone();
            compacted_msgs.push(m);
            assert(views(compacted_msgs@) =~= views(before).push(m@));
            assert(views(compacted_msgs@) =~= head + views(messages@).subrange(start as int, k + 1));
            k += 1;
        }
        proof {
            let full = compacted(ms, system_prompt@, self.keep_last_n as nat);
            if self.keep_system {
                assert(views(compacted_msgs@) =~= full);
            } else {
                assert(views(compacted_msgs@) =~= full.drop_first());
            }
        }
        compacted_msgs
    }

    /// Estimated tokens of a text: its byte length divided by four.
    pub fn estimate_tokens(text: &str) -> (r: usize)
        ensures
            r == byte_len(text@) as usize / 4,
    {
        text.len() / 4
    }
}

// ---------------------------------------------------------------------
// Test scaffolding
// ---------------------------------------------------------------------

/// Generates a placeholder test for a source file.
pub struct TestGenerator;

/// The Rust test module for a file: its path with `/` turned into `::`
/// and `.rs` removed names the test function.
pub open spec fn rust_test(filename: Seq<char>) -> Seq<char> {
    let module = replace_all(replace_all(filename, "/"@, "::"@), ".rs"@, ""@);
    "#[cfg(test)]\nmod tests {\n    use super::*;\n\n    #[test]\n    fn test_"@ + module
        + "() {\n        // TODO: add assertions\n        assert!(true);\n    }\n}\n"@
}

/// The Python test for a file.
pub open spec fn python_test(filename: Seq<char>) -> Seq<char> {
    "import pytest\n\ndef test_"@ + replace_all(replace_all(filename, "/"@, "_"@), ".py"@, ""@)
        + "():\n    assert True\n"@
}

/// The JavaScript/TypeScript test for a file.
pub open spec fn js_test(filename: Seq<char>) -> Seq<char> {
    "describe('"@ + replace_all(
        replace_all(replace_all(filename, "/"@, "_"@), ".ts"@, ""@),
        ".js"@,
        ""@,
    ) + "', () => {\n  it('should work', () => {\n    expect(true).toBe(true);\n  });\n});\n"@
}

/// The Go test for a file: the package is the last path segment without
/// `.go`.
pub open spec fn go_test(filename: Seq<char>) -> Seq<char> {
    "package "@ + replace_all(split(filename, "/"@).last(), ".go"@, ""@)
        + "\n\nimport \"testing\"\n\nfunc TestBasic(t *testing.T) {\n\t// TODO: add assertions\n}\n"@
}

/// The Dart test (the same for every file).
pub open spec fn dart_test() -> Seq<char> {
    "import 'package:flutter_test/flutter_test.dart';\n\nvoid main() {\n  test('basic test', () {\n    expect(true, isTrue);\n  });\n}\n"@
}

/// The placeholder test for a file in a language.
pub open spec fn test_for(filename: Seq<char>, language: Seq<char>) -> Seq<char> {
    if language == "rust"@ {
        rust_test(filename)
    } else if language == "python"@ {
        python_test(filename)
    } else if language == "javascript"@ || language == "typescript"@ {
        js_test(filename)
    } else if language == "go"@ {
        go_test(filename)
    } else if language == "dart"@ {
        dart_test()
    } else {
        "// TODO: add tests for "@ + filename + "\n// Language: "@ + language + "\n"@
    }
}

impl TestGenerator {
    /// A placeholder test for `filename` in `language`.
    pub fn generate_test_for(filename: &str, code: &str, language: &str) -> (r: String)
        ensures
            r@ == test_for(filename@, language@),
    {
        if str_eq(language, "rust") {
            Self::generate_rust_test(filename, code)
        } else if str_eq(language, "python") {
            Self::generate_python_test(filename, code)
        } else if str_eq(language, "javascript") || str_eq(language, "typescript") {
            Self::generate_js_test(filename, code)
        } else if str_eq(language, "go") {
            Self::generate_go_test(filename, code)
        } else if str_eq(language, "dart") {
            Self::generate_dart_test(filename, code)
        } else {
            let mut s = to_owned("// TODO: add tests for ");
            push_str(&mut s, filename);
            push_str(&mut s, "\n// Language: ");
            push_str(&mut s, language);
            push_str(&mut s, "\n");
            s
        }
    }

    /// The Rust placeholder test.
    pub fn generate_rust_test(filename: &str, code: &str) -> (r: String)
        ensures
            r@ == rust_test(filename@),
    {
        proof {
            reveal_strlit("/");
            reveal_strlit(".rs");
        }
        let a = str_replace(filename, "/", "::");
        let module = str_replace(a.as_str(), ".rs", "");
        let mut s = to_owned(
            "#[cfg(test)]\nmod tests {\n    use super::*;\n\n    #[test]\n    fn test_",
        );
        push_str(&mut s, module.as_str());
        push_str(&mut s, "() {\n        // TODO: add assertions\n        assert!(true);\n    }\n}\n");
        s
    }

    /// The Python placeholder test.
    pub fn generate_python_test(filename: &str, code: &str) -> (r: String)
        ensures
            r@ == python_test(filename@),
    {
        proof {
            reveal_strlit("/");
            reveal_strlit(".py");
        }
        let a = str_replace(filename, "/", "_");
        let b = str_replace(a.as_str(), ".py", "");
        let mut s = to_owned("import pytest\n\ndef test_");
        push_str(&mut s, b.as_str());
        push_str(&mut s, "():\n    assert True\n");
        s
    }

    /// The JavaScript/TypeScript placeholder test.
    pub fn generate_js_test(filename: &str, code: &str) -> (r: String)
        ensures
            r@ == js_test(filename@),
    {
        proof {
            reveal_strlit("/");
            reveal_strlit(".ts");
            reveal_strlit(".js");
        }
        let a = str_replace(filename, "/", "_");
        let b = str_replace(a.as_str(), ".ts", "");
        let c = str_replace(b.as_str(), ".js", "");
        let mut s = to_owned("describe('");
        push_str(&mut s, c.as_str());
        push_str(
            &mut s,
            "', () => {\n  it('should work', () => {\n    expect(true).toBe(true);\n  });\n});\n",
        );
        s
    }

    /// The Go placeholder test.
    pub fn generate_go_test(filename: &str, code: &str) -> (r: String)
        ensures
            r@ == go_test(filename@),
    {
        proof {
            reveal_strlit("/");
            reveal_strlit(".go");
        }
        let parts = str_split(filename, "/");
        proof {
            crate::text::lemma_split_len(filename@, "/"@);
            assert(views(parts@).last() == parts@[parts@.len() - 1]@);
        }
        let last = parts[parts.len() - 1].as_str();
        let pkg = str_replace(last, ".go", "");
        let mut s = to_owned("package ");
        push_str(&mut s, pkg.as_str());
        push_str(
            &mut s,
            "\n\nimport \"testing\"\n\nfunc TestBasic(t *testing.T) {\n\t// TODO: add assertions\n}\n",
        );
        s
    }

    /// The Dart placeholder test.
    pub fn generate_dart_test(filename: &str, code: &str) -> (r: String)
        ensures
            r@ == dart_test(),
    {
        to_owned(
            "import 'package:flutter_test/flutter_test.dart';\n\nvoid main() {\n  test('basic test', () {\n    expect(true, isTrue);\n  });\n}\n",
        )
    }
}

// ---------------------------------------------------------------------
// Scouting
// ---------------------------------------------------------------------

/// Explores a project tree.
pub struct ScoutSubagent {
    project_root: String,
}

impl ScoutSubagent {
    /// A scout for the project at `project_root`.
    pub fn new(project_root: String) -> (r: Self)
        ensures
            r.root()@ == project_root@,
    {
        ScoutSubagent { project_root }
    }

    /// The project root.
    pub closed spec fn root(&self) -> String {
        self.project_root
    }

    /// The project root as text.
    pub fn project_root(&self) -> (r: &str)
        ensures
            r@ == self.root()@,
    {
        self.project_root.as_str()
    }

    /// What a scout reports of one entry of the project root, given its
    /// name, its kind, its extension and its size in bytes: directories
    /// other than build, dependency and version-control ones, and source
    /// files with their estimated line count.
    pub fn finding(
        name: &str,
        is_dir: bool,
        is_file: bool,
        extension: Option<&str>,
        size: u64,
    ) -> (r: Option<String>)
        ensures
            r matches Some(t) ==> finding(name@, is_dir, is_file, ext_view(extension), size as nat) == Some(
                t@,
            ),
            r is None ==> finding(name@, is_dir, is_file, ext_view(extension), size as nat) is None,
    {
        proof {
            reveal_strlit("target");
            reveal_strlit("node_modules");
            reveal_strlit(".git");
            reveal_strlit("rs");
            reveal_strlit("py");
            reveal_strlit("ts");
            reveal_strlit("js");
            reveal_strlit("go");
            reveal_strlit("dart");
        }
        let skipped = str_eq(name, "target") || str_eq(name, "node_modules") || str_eq(name, ".git");
        if is_dir && !skipped {
            let mut out = to_owned("📁 ");
            push_str(&mut out, name);
            push_str(&mut out, "/");
            return Some(out);
        }
        let scouted = match extension {
            Some(e) => str_eq(e, "rs") || str_eq(e, "py") || str_eq(e, "ts") || str_eq(e, "js")
                || str_eq(e, "go") || str_eq(e, "dart"),
            None => false,
        };
        if is_file && scouted {
            let mut out = to_owned("📄 ");
            push_str(&mut out, name);
            push_str(&mut out, " (");
            let n = decimal_string((size / 40) as u128);
            push_str(&mut out, n.as_str());
            push_str(&mut out, " lines)");
            Some(out)
        } else {
            None
        }
    }
}

/// A directory the scout passes over.
pub open spec fn skipped_dir(name: Seq<char>) -> bool {
    name == "target"@ || name == "node_modules"@ || name == ".git"@
}

/// An extension of the source files the scout reports.
pub open spec fn scouted_ext(e: Seq<char>) -> bool {
    e == "rs"@ || e == "py"@ || e == "ts"@ || e == "js"@ || e == "go"@ || e == "dart"@
}

/// An optional extension as text.
pub open spec fn ext_view(e: Option<&str>) -> Option<Seq<char>> {
    match e {
        Some(x) => Some(x@),
        None => None,
    }
}

/// What the scout reports of an entry: a directory it does not pass
/// over, or a source file with its size in bytes over forty as a line
/// count.
pub open spec fn finding(
    name: Seq<char>,
    is_dir: bool,
    is_file: bool,
    ext: Option<Seq<char>>,
    size: nat,
) -> Option<Seq<char>> {
    if is_dir && !skipped_dir(name) {
        Some("📁 "@ + name + "/"@)
    } else if is_file && (ext matches Some(e) && scouted_ext(e)) {
        Some("📄 "@ + name + " ("@ + decimal(size / 40) + " lines)"@)
    } else {
        None
    }
}

} // verus!
