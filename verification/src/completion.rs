//! Inline completion helpers: closing brackets, import hints, function
//! templates and file boilerplate.
use vstd::prelude::*;

use crate::text::{
    byte_len, byte_len_exact, chars_of, contains, ends_with, fit_prefix, fit_prefix_exec, lines,
    starts_with, str_contains, str_ends_with, str_eq, str_lines, str_starts_with, str_trim,
    string_from, to_owned, trim, views,
};

verus! {

/// Produces completion suggestions.
pub struct CompletionEngine;

/// A request for completions at a cursor in a file.
#[derive(Debug, Clone)]
pub struct CompletionRequest {
    pub file_path: String,
    pub file_content: String,
    pub cursor_line: usize,
    pub cursor_col: usize,
    pub language: String,
    pub max_tokens: usize,
}

/// A suggested completion: its text, how sure the engine is (in percent),
/// and the lines it spans.
#[derive(Debug, Clone)]
pub struct CompletionResponse {
    pub text: String,
    pub confidence_pct: u8,
    pub range_start_line: usize,
    pub range_end_line: usize,
}

/// A completion as a value: text, confidence in percent, first and last
/// line.
pub type Suggestion = (Seq<char>, u8, int, int);

/// The text of a line before the cursor column (a byte offset); the whole
/// line when the column lies past its end.
pub open spec fn line_prefix(line: Seq<char>, col: nat) -> Seq<char> {
    if col <= byte_len(line) {
        line.take(fit_prefix(line, col as int) as int)
    } else {
        line
    }
}

/// Whether the cursor column falls between characters of the line (or
/// past its end), so that the prefix can be cut there.
pub open spec fn column_on_boundary(line: Seq<char>, col: nat) -> bool {
    col <= byte_len(line) ==> byte_len(line.take(fit_prefix(line, col as int) as int)) == col
}

/// Whether the text before the cursor starts a function.
pub open spec fn starts_function(p: Seq<char>) -> bool {
    ends_with(p, "fn "@) || ends_with(p, "func "@) || ends_with(p, "def "@)
}

/// The completions for a request, most confident first: the closing
/// bracket (100%), a function template (80%), an import hint (70%), and
/// file boilerplate at an empty prefix (50%); none when the cursor is
/// past the last line.
pub open spec fn suggestions_for(req: CompletionRequest) -> Seq<Suggestion> {
    let ls = lines(req.file_content@);
    let c = req.cursor_line as int;
    if c >= ls.len() {
        seq![]
    } else {
        let line = ls[c];
        let p = line_prefix(line, req.cursor_col as nat);
        (match closing_bracket(p) {
            Some(b) => seq![(b, 100u8, c, c)],
            None => seq![],
        }) + (if starts_function(p) {
            seq![(function_template(req.language@), 80u8, c, c + 4)]
        } else {
            seq![]
        }) + (match import_suggestion(line, req.language@, ls) {
            Some(h) => seq![(h, 70u8, c, c)],
            None => seq![],
        }) + (if trim(p).len() == 0 {
            match boilerplate(req.file_path@) {
                Some(b) => seq![(b, 50u8, c, c + 5)],
                None => seq![],
            }
        } else {
            seq![]
        })
    }
}

/// Whether a response is the given suggestion.
pub open spec fn is_suggestion(r: CompletionResponse, s: Suggestion) -> bool {
    &&& r.text@ == s.0
    &&& r.confidence_pct == s.1
    &&& r.range_start_line == s.2
    &&& r.range_end_line == s.3
}

/// The bracket that closes the one a prefix ends with (`<` only when the
/// prefix holds no closing tag).
pub open spec fn closing_bracket(prefix: Seq<char>) -> Option<Seq<char>> {
    if ends_with(prefix, "("@) {
        Some(")"@)
    } else if ends_with(prefix, "["@) {
        Some("]"@)
    } else if ends_with(prefix, "{"@) {
        Some("}"@)
    } else if ends_with(prefix, "<"@) && !contains(prefix, "</"@) {
        Some(">"@)
    } else {
        None
    }
}

/// A prefix is closed by the bracket that matches its last character:
/// `(` by `)`, `[` by `]`, `{` by `}`, and `<` by `>` unless the prefix
/// already holds a closing tag `</`; a prefix ending in anything else
/// gets no bracket.
pub proof fn lemma_closing_bracket_matches_last(prefix: Seq<char>)
    ensures
        prefix.len() > 0 && prefix.last() == '(' ==> closing_bracket(prefix) == Some(seq![')']),
        prefix.len() > 0 && prefix.last() == '[' ==> closing_bracket(prefix) == Some(seq![']']),
        prefix.len() > 0 && prefix.last() == '{' ==> closing_bracket(prefix) == Some(seq!['}']),
        prefix.len() > 0 && prefix.last() == '<' && !contains(prefix, seq!['<', '/'])
            ==> closing_bracket(prefix) == Some(seq!['>']),
        prefix.len() > 0 && prefix.last() == '<' && contains(prefix, seq!['<', '/'])
            ==> closing_bracket(prefix) is None,
        prefix.len() == 0 || (prefix.last() != '(' && prefix.last() != '[' && prefix.last() != '{'
            && prefix.last() != '<') ==> closing_bracket(prefix) is None,
{
    reveal_strlit("(");
    reveal_strlit(")");
    reveal_strlit("[");
    reveal_strlit("]");
    reveal_strlit("{");
    reveal_strlit("}");
    reveal_strlit("<");
    reveal_strlit(">");
    reveal_strlit("</");
    assert("</"@ =~= seq!['<', '/']);
    assert("("@ =~= seq!['(']);
    assert("["@ =~= seq!['[']);
    assert("{"@ =~= seq!['{']);
    assert("<"@ =~= seq!['<']);
    assert(")"@ =~= seq![')']);
    assert("]"@ =~= seq![']']);
    assert("}"@ =~= seq!['}']);
    assert(">"@ =~= seq!['>']);
    lemma_ends_with_char(prefix, '(');
    lemma_ends_with_char(prefix, '[');
    lemma_ends_with_char(prefix, '{');
    lemma_ends_with_char(prefix, '<');
}

/// A text ends with a one-character text exactly when its last character
/// is that character.
proof fn lemma_ends_with_char(s: Seq<char>, c: char)
    ensures
        ends_with(s, seq![c]) <==> (s.len() > 0 && s.last() == c),
{
    if s.len() > 0 {
        let tail = s.subrange(s.len() - 1, s.len() as int);
        assert(tail =~= seq![s.last()]);
        if tail == seq![c] {
            assert(tail[0] == c);
        }
    }
}

/// Whether a line is an import line.
pub open spec fn is_import_line(l: Seq<char>) -> bool {
    starts_with(l, "use "@) || starts_with(l, "import "@) || starts_with(l, "from "@)
}

/// The import hint for a language.
pub open spec fn import_hint(language: Seq<char>) -> Option<Seq<char>> {
    if language == "rust"@ {
        Some("use std::"@)
    } else if language == "python"@ {
        Some("import "@)
    } else if language == "javascript"@ || language == "typescript"@ {
        Some("import {  } from '';"@)
    } else if language == "go"@ {
        Some("import ("@)
    } else if language == "dart"@ {
        Some("import 'package:"@)
    } else {
        None
    }
}

/// The import suggestion for a line: none on an import line or when the
/// file already has an import; otherwise the language's hint.
pub open spec fn import_suggestion(line: Seq<char>, language: Seq<char>, ls: Seq<Seq<char>>) -> Option<Seq<char>> {
    if is_import_line(line) {
        None
    } else if exists|i: int| 0 <= i < ls.len() && is_import_line(#[trigger] ls[i]) {
        None
    } else {
        import_hint(language)
    }
}

/// The function template for a language.
pub open spec fn function_template(language: Seq<char>) -> Seq<char> {
    if language == "rust"@ {
        "fn name() -> Result<()> {\n    todo!()\n}\n"@
    } else if language == "python"@ {
        "def name():\n    pass\n"@
    } else if language == "javascript"@ || language == "typescript"@ {
        "function name() {\n  return;\n}\n"@
    } else if language == "go"@ {
        "func Name() error {\n\treturn nil\n}\n"@
    } else if language == "dart"@ {
        "void name() {\n  // TODO\n}\n"@
    } else {
        "fn name() {\n  // TODO\n}\n"@
    }
}

/// The boilerplate for a file, by its name.
pub open spec fn boilerplate(file_path: Seq<char>) -> Option<Seq<char>> {
    if ends_with(file_path, "main.rs"@) {
        Some("fn main() {\n    println!(\"Hello, KontroCode!\");\n}\n"@)
    } else if ends_with(file_path, "main.go"@) {
        Some("package main\n\nfunc main() {\n\tprintln(\"Hello, KontroCode!\")\n}\n"@)
    } else {
        None
    }
}

/// Whether a line is an import line, computed.
fn is_import_line_exec(l: &str) -> (r: bool)
    ensures
        r == is_import_line(l@),
{
    str_starts_with(l, "use ") || str_starts_with(l, "import ") || str_starts_with(l, "from ")
}

impl CompletionEngine {
    /// A completion engine.
    pub fn new() -> Self {
        CompletionEngine
    }

    /// The closing bracket for what the prefix opens.
    pub fn complete_bracket(&self, prefix: &str) -> (r: Option<String>)
        ensures
            r matches Some(s) ==> closing_bracket(prefix@) == Some(s@),
            r is None ==> closing_bracket(prefix@) is None,
    {
        if str_ends_with(prefix, "(") {
            return Some(to_owned(")"));
        }
        if str_ends_with(prefix, "[") {
            return Some(to_owned("]"));
        }
        if str_ends_with(prefix, "{") {
            return Some(to_owned("}"));
        }
        if str_ends_with(prefix, "<") && !str_contains(prefix, "</") {
            return Some(to_owned(">"));
        }
        None
    }

    /// An import line to suggest, if the file has none yet.
    pub fn suggest_import(&self, line: &str, language: &str, lines: &[String]) -> (r: Option<String>)
        ensures
            r matches Some(s) ==> import_suggestion(line@, language@, views(lines@)) == Some(s@),
            r is None ==> import_suggestion(line@, language@, views(lines@)) is None,
    {
        if is_import_line_exec(line) {
            return None;
        }
        let mut i: usize = 0;
        while i < lines.len()
            invariant
                i <= lines.len(),
                forall|j: int| 0 <= j < i ==> !is_import_line(#[trigger] views(lines@)[j]),
            decreases lines.len() - i,
        {
            if is_import_line_exec(lines[i].as_str()) {
                assert(is_import_line(views(lines@)[i as int]));
                return None;
            }
            i += 1;
        }
        if str_eq(language, "rust") {
            Some(to_owned("use std::"))
        } else if str_eq(language, "python") {
            Some(to_owned("import "))
        } else if str_eq(language, "javascript") || str_eq(language, "typescript") {
            Some(to_owned("import {  } from '';"))
        } else if str_eq(language, "go") {
            Some(to_owned("import ("))
        } else if str_eq(language, "dart") {
            Some(to_owned("import 'package:"))
        } else {
            None
        }
    }

    /// A function skeleton in the given language.
    pub fn generate_function_template(&self, language: &str) -> (r: String)
        ensures
            r@ == function_template(language@),
    {
        if str_eq(language, "rust") {
            to_owned("fn name() -> Result<()> {\n    todo!()\n}\n")
        } else if str_eq(language, "python") {
            to_owned("def name():\n    pass\n")
        } else if str_eq(language, "javascript") || str_eq(language, "typescript") {
            to_owned("function name() {\n  return;\n}\n")
        } else if str_eq(language, "go") {
            to_owned("func Name() error {\n\treturn nil\n}\n")
        } else if str_eq(language, "dart") {
            to_owned("void name() {\n  // TODO\n}\n")
        } else {
            to_owned("fn name() {\n  // TODO\n}\n")
        }
    }

    /// Boilerplate for an entry-point file.
    pub fn common_patterns(&self, language: &str, file_path: &str) -> (r: Option<String>)
        ensures
            r matches Some(s) ==> boilerplate(file_path@) == Some(s@),
            r is None ==> boilerplate(file_path@) is None,
    {
        if str_ends_with(file_path, "main.rs") {
            return Some(to_owned("fn main() {\n    println!(\"Hello, KontroCode!\");\n}\n"));
        }
        if str_ends_with(file_path, "main.go") {
            return Some(
                to_owned("package main\n\nfunc main() {\n\tprintln(\"Hello, KontroCode!\")\n}\n"),
            );
        }
        None
    }
}

/// A response holding a suggestion.
fn response(text: String, pct: u8, start: usize, end: usize) -> (r: CompletionResponse)
    ensures
        r.text@ == text@,
        r.confidence_pct == pct,
        r.range_start_line == start,
        r.range_end_line == end,
{
    CompletionResponse { text, confidence_pct: pct, range_start_line: start, range_end_line: end }
}

impl CompletionEngine {
    /// The completions at the cursor, most confident first. The cursor
    /// column is a byte offset into the line and must fall between
    /// characters.
    pub fn complete(&self, req: &CompletionRequest) -> (r: Vec<CompletionResponse>)
        requires
            req.cursor_line + 5 <= usize::MAX,
            (req.cursor_line as int) < lines(req.file_content@).len() ==> column_on_boundary(
                lines(req.file_content@)[req.cursor_line as int],
                req.cursor_col as nat,
            ),
        ensures
            r@.len() == suggestions_for(*req).len(),
            forall|i: int|
                0 <= i < r@.len() ==> is_suggestion(#[trigger] r@[i], suggestions_for(*req)[i]),
    {
        let ls = str_lines(req.file_content.as_str());
        if req.cursor_line >= ls.len() {
            return Vec::new();
        }
        let c = req.cursor_line;
        let line = ls[c].as_str();
        assert(views(ls@)[c as int] == line@);
        let cs = chars_of(line);
        let prefix = if req.cursor_col as u128 <= byte_len_exact(&cs) {
            let k = fit_prefix_exec(&cs, req.cursor_col);
            string_from(&cs, 0, k)
        } else {
            to_owned(line)
        };
        assert(prefix@ =~= line_prefix(line@, req.cursor_col as nat));
        let p = prefix.as_str();
        let ghost want = suggestions_for(*req);
        let mut out: Vec<CompletionResponse> = Vec::new();
        let ghost part1 = match closing_bracket(p@) {
            Some(b) => seq![(b, 100u8, c as int, c as int)],
            None => Seq::<Suggestion>::empty(),
        };
        match self.complete_bracket(p) {
            Some(b) => {
                out.push(response(b, 100, c, c));
            },
            None => {},
        }
        assert(out@.len() == part1.len());
        let ghost part2 = if starts_function(p@) {
            seq![(function_template(req.language@), 80u8, c as int, c + 4)]
        } else {
            Seq::<Suggestion>::empty()
        };
        if str_ends_with(p, "fn ") || str_ends_with(p, "func ") || str_ends_with(p, "def ") {
            let t = self.generate_function_template(req.language.as_str());
            out.push(response(t, 80, c, c + 4));
        }
        let ghost part3 = match import_suggestion(line@, req.language@, views(ls@)) {
            Some(h) => seq![(h, 70u8, c as int, c as int)],
            None => Seq::<Suggestion>::empty(),
        };
        match self.suggest_import(line, req.language.as_str(), ls.as_slice()) {
            Some(h) => {
                out.push(response(h, 70, c, c));
            },
            None => {},
        }
        let ghost part4 = if trim(p@).len() == 0 {
            match boilerplate(req.file_path@) {
                Some(b) => seq![(b, 50u8, c as int, c + 5)],
                None => Seq::<Suggestion>::empty(),
            }
        } else {
            Seq::<Suggestion>::empty()
        };
        let tp = str_trim(p);
        if tp.unicode_len() == 0 {
            match self.common_patterns(req.language.as_str(), req.file_path.as_str()) {
                Some(b) => {
                    out.push(response(b, 50, c, c + 5));
                },
                None => {},
            }
        }
        assert(want =~= part1 + part2 + part3 + part4);
        assert(out@.len() == want.len());
        assert forall|i: int| 0 <= i < out@.len() implies is_suggestion(#[trigger] out@[i], want[i]) by {
        }
        out
    }
}

/// Completions come most confident first: each is strictly more
/// confident than the next.
pub proof fn lemma_suggestions_by_confidence(req: CompletionRequest)
    ensures
        forall|i: int, j: int|
            0 <= i < j < suggestions_for(req).len() ==> #[trigger] suggestions_for(req)[i].1
                > #[trigger] suggestions_for(req)[j].1,
{
}

} // verus!
