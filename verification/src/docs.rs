//! Official documentation as a research source: which pages to read and
//! what a page says about a class, crate or module.
use vstd::prelude::*;

use crate::connect::{first_word, first_word_exec};
use crate::text::{contains, lines, push_str, str_contains, str_lines, str_trim, to_owned, trim, views};

verus! {

/// A library found in the documentation, with its score in percent.
#[derive(Debug, Clone)]
pub struct DocCandidate {
    pub name: String,
    pub version: String,
    pub score_pct: u8,
    pub reason: String,
    pub source: String,
    pub url: Option<String>,
}

/// The Flutter API reference.
pub const FLUTTER_API: &'static str = "https://api.flutter.dev/flutter";

/// The Rust crate documentation host.
pub const DOCS_RS: &'static str = "https://docs.rs";

/// The Node.js API reference.
pub const NODEJS_DOCS: &'static str = "https://nodejs.org/api";

/// What a topic names: its first word, or the whole topic when it has
/// none.
pub open spec fn topic_subject(topic: Seq<char>) -> Seq<char> {
    match first_word(topic) {
        Some(w) => w,
        None => topic,
    }
}

/// What a topic names.
pub fn topic_word(topic: &str) -> (r: String)
    ensures
        r@ == topic_subject(topic@),
{
    match first_word_exec(topic) {
        Some(w) => w,
        None => to_owned(topic),
    }
}

/// The Flutter library page of a class.
pub fn flutter_page_url(class: &str) -> (r: String)
    ensures
        r@ == FLUTTER_API@ + "/"@ + class@ + "/"@ + class@ + "-library.html"@,
{
    let mut s = to_owned(FLUTTER_API);
    push_str(&mut s, "/");
    push_str(&mut s, class);
    push_str(&mut s, "/");
    push_str(&mut s, class);
    push_str(&mut s, "-library.html");
    s
}

/// The docs.rs front page of a crate.
pub fn docs_rs_url(crate_name: &str) -> (r: String)
    ensures
        r@ == DOCS_RS@ + "/"@ + crate_name@ + "/latest/"@ + crate_name@ + "/index.html"@,
{
    let mut s = to_owned(DOCS_RS);
    push_str(&mut s, "/");
    push_str(&mut s, crate_name);
    push_str(&mut s, "/latest/");
    push_str(&mut s, crate_name);
    push_str(&mut s, "/index.html");
    s
}

/// The Node.js page of a module.
pub fn nodejs_url(module: &str) -> (r: String)
    ensures
        r@ == NODEJS_DOCS@ + "/"@ + module@ + ".html"@,
{
    let mut s = to_owned(NODEJS_DOCS);
    push_str(&mut s, "/");
    push_str(&mut s, module);
    push_str(&mut s, ".html");
    s
}

/// What the Flutter page says, line by line: each line mentioning a
/// deprecation gives a low-scored finding; the first line declaring the
/// class gives a high-scored one and ends the reading.
pub open spec fn flutter_findings(ls: Seq<Seq<char>>, class: Seq<char>) -> (bool, Seq<(Seq<char>, u8)>)
    decreases ls.len(),
{
    if ls.len() == 0 {
        (false, seq![])
    } else {
        let prev = flutter_findings(ls.drop_last(), class);
        let l = ls.last();
        if prev.0 {
            prev
        } else {
            let dep = if contains(l, "deprecated"@) || contains(l, "Deprecated"@) {
                seq![("DEPRECATED at flutter.dev: "@ + trim(l), 10u8)]
            } else {
                seq![]
            };
            if contains(l, "class "@) && contains(l, class) {
                (true, prev.1 + dep + seq![("Official Flutter class documented at flutter.dev"@, 95u8)])
            } else {
                (false, prev.1 + dep)
            }
        }
    }
}

/// Whether a candidate is a Flutter finding about `class` at `url`.
pub open spec fn is_flutter_finding(c: DocCandidate, class: Seq<char>, url: Seq<char>, f: (Seq<char>, u8)) -> bool {
    &&& c.name@ == class
    &&& c.version@ == "latest"@
    &&& c.score_pct == f.1
    &&& c.reason@ == f.0
    &&& c.source@ == "flutter.dev"@
    &&& c.url matches Some(u) && u@ == url
}

/// A Flutter finding.
fn flutter_candidate(class: &str, url: &str, reason: String, pct: u8) -> (c: DocCandidate)
    ensures
        c.name@ == class@,
        c.version@ == "latest"@,
        c.score_pct == pct,
        c.reason@ == reason@,
        c.source@ == "flutter.dev"@,
        c.url matches Some(u) && u@ == url@,
{
    DocCandidate {
        name: to_owned(class),
        version: to_owned("latest"),
        score_pct: pct,
        reason,
        source: to_owned("flutter.dev"),
        url: Some(to_owned(url)),
    }
}

/// What the Flutter page of `class` (read from `url`) says.
pub fn flutter_candidates(class: &str, url: &str, html: &str) -> (r: Vec<DocCandidate>)
    ensures
        r@.len() == flutter_findings(lines(html@), class@).1.len(),
        forall|i: int|
            0 <= i < r@.len() ==> is_flutter_finding(
                #[trigger] r@[i],
                class@,
                url@,
                flutter_findings(lines(html@), class@).1[i],
            ),
{
    let ls = str_lines(html);
    let mut out: Vec<DocCandidate> = Vec::new();
    let mut i: usize = 0;
    while i < ls.len()
        invariant
            i <= ls.len(),
            views(ls@) == lines(html@),
            !flutter_findings(views(ls@).take(i as int), class@).0,
            out@.len() == flutter_findings(views(ls@).take(i as int), class@).1.len(),
            forall|j: int|
                0 <= j < out@.len() ==> is_flutter_finding(
                    #[trigger] out@[j],
                    class@,
                    url@,
                    flutter_findings(views(ls@).take(i as int), class@).1[j],
                ),
        decreases ls.len() - i,
    {
        let ghost pre = views(ls@).take(i as int);
        let ghost before = out@;
        proof {
            assert(views(ls@).take(i + 1).drop_last() =~= pre);
            assert(views(ls@).take(i + 1).last() == ls@[i as int]@);
        }
        let line = ls[i].as_str();
        if str_contains(line, "deprecated") || str_contains(line, "Deprecated") {
            let mut reason = to_owned("DEPRECATED at flutter.dev: ");
            let t = str_trim(line);
            push_str(&mut reason, t.as_str());
            out.push(flutter_candidate(class, url, reason, 10));
        }
        if str_contains(line, "class ") && str_contains(line, class) {
            out.push(flutter_candidate(class, url, to_owned("Official Flutter class documented at flutter.dev"), 95));
            proof {
                let next = flutter_findings(views(ls@).take(i + 1), class@);
                assert(next.0);
                let n = views(ls@);
                assert forall|k: int| i + 1 <= k <= n.len() implies flutter_findings(#[trigger] n.take(k), class@) == next by {
                    lemma_findings_stay(n, class@, i + 1, k);
                }
                assert(n.take(n.len() as int) =~= n);
                assert forall|j: int| 0 <= j < out@.len() implies is_flutter_finding(
                    #[trigger] out@[j],
                    class@,
                    url@,
                    next.1[j],
                ) by {
                    if j < before.len() {
                        assert(out@[j] == before[j]);
                    }
                }
            }
            return out;
        }
        proof {
            let next = flutter_findings(views(ls@).take(i + 1), class@);
            assert forall|j: int| 0 <= j < out@.len() implies is_flutter_finding(
                #[trigger] out@[j],
                class@,
                url@,
                next.1[j],
            ) by {
                if j < before.len() {
                    assert(out@[j] == before[j]);
                }
            }
        }
        i += 1;
    }
    assert(views(ls@).take(i as int) =~= views(ls@));
    out
}

/// Once the class is found, later lines change nothing.
proof fn lemma_findings_stay(ls: Seq<Seq<char>>, class: Seq<char>, a: int, b: int)
    requires
        0 <= a <= b <= ls.len(),
        flutter_findings(ls.take(a), class).0,
    ensures
        flutter_findings(ls.take(b), class) == flutter_findings(ls.take(a), class),
    decreases b - a,
{
    if a < b {
        lemma_findings_stay(ls, class, a, b - 1);
        assert(ls.take(b).drop_last() =~= ls.take(b - 1));
    }
}

/// What the docs.rs answer says about a crate: documented (high score)
/// or not (low score, no address).
pub fn docs_rs_candidate(crate_name: &str, url: &str, documented: bool) -> (c: DocCandidate)
    ensures
        c.name@ == crate_name@,
        c.source@ == "docs.rs"@,
        documented ==> {
            &&& c.version@ == "latest"@
            &&& c.score_pct == 90
            &&& c.reason@ == "Official Rust docs at docs.rs/"@ + crate_name@
            &&& c.url matches Some(u) && u@ == url@
        },
        !documented ==> {
            &&& c.version@ == "unknown"@
            &&& c.score_pct == 30
            &&& c.reason@ == "No docs.rs entry for "@ + crate_name@
            &&& c.url is None
        },
{
    if documented {
        let mut reason = to_owned("Official Rust docs at docs.rs/");
        push_str(&mut reason, crate_name);
        DocCandidate {
            name: to_owned(crate_name),
            version: to_owned("latest"),
            score_pct: 90,
            reason,
            source: to_owned("docs.rs"),
            url: Some(to_owned(url)),
        }
    } else {
        let mut reason = to_owned("No docs.rs entry for ");
        push_str(&mut reason, crate_name);
        DocCandidate {
            name: to_owned(crate_name),
            version: to_owned("unknown"),
            score_pct: 30,
            reason,
            source: to_owned("docs.rs"),
            url: None,
        }
    }
}

/// The stability a Node.js page declares.
pub open spec fn node_stability(html: Seq<char>) -> Seq<char> {
    if contains(html, "Stability: 1"@) || contains(html, "Stable"@) {
        "stable"@
    } else if contains(html, "Stability: 0"@) || contains(html, "Deprecated"@) {
        "deprecated"@
    } else {
        "unknown"@
    }
}

/// What a Node.js page says about a module: its stability, and a low
/// score when it is deprecated.
pub fn nodejs_candidate(module: &str, url: &str, html: &str) -> (c: DocCandidate)
    ensures
        c.name@ == module@,
        c.version@ == "latest"@,
        c.score_pct == (if node_stability(html@) == "deprecated"@ {
            10u8
        } else {
            85u8
        }),
        c.reason@ == "nodejs.org docs: "@ + module@ + " ("@ + node_stability(html@) + ")"@,
        c.source@ == "nodejs.org"@,
        c.url matches Some(u) && u@ == url@,
{
    proof {
        reveal_strlit("stable");
        reveal_strlit("deprecated");
        reveal_strlit("unknown");
    }
    let (stability, score): (&str, u8) = if str_contains(html, "Stability: 1") || str_contains(html, "Stable") {
        ("stable", 85)
    } else if str_contains(html, "Stability: 0") || str_contains(html, "Deprecated") {
        ("deprecated", 10)
    } else {
        ("unknown", 85)
    };
    let mut reason = to_owned("nodejs.org docs: ");
    push_str(&mut reason, module);
    push_str(&mut reason, " (");
    push_str(&mut reason, stability);
    push_str(&mut reason, ")");
    DocCandidate {
        name: to_owned(module),
        version: to_owned("latest"),
        score_pct: score,
        reason,
        source: to_owned("nodejs.org"),
        url: Some(to_owned(url)),
    }
}

} // verus!
