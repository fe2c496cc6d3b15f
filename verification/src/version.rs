//! Dependency versions: conflicts between declared versions, and the
//! dependency lists of manifest files.
use vstd::prelude::*;

use crate::text::{
    chars_of, contains, find_char, find_char_exec, has_char, join, join_exec, lines, push_str,
    starts_with, str_contains, str_eq, str_lines, str_starts_with, str_trim, string_from,
    to_owned, trim, trim_char_exec, trim_end_char, trim_start_char, views, lemma_contains_char,
};

verus! {

/// A declared dependency.
#[derive(Debug, Clone)]
pub struct DepInfo {
    pub name: String,
    pub version: String,
    pub source: String,
    pub is_direct: bool,
}

/// What a set of dependencies gets told about its versions.
#[derive(Debug, Clone)]
pub struct ConflictReport {
    pub conflicts: Vec<String>,
    pub warnings: Vec<String>,
    pub suggestions: Vec<String>,
}

/// Checks declared dependency versions.
pub struct VersionResolver;

/// The versions declared for `name`, in declaration order.
pub open spec fn versions_of(deps: Seq<DepInfo>, name: Seq<char>) -> Seq<Seq<char>>
    decreases deps.len(),
{
    if deps.len() == 0 {
        seq![]
    } else {
        let rest = versions_of(deps.drop_last(), name);
        if deps.last().name@ == name {
            rest.push(deps.last().version@)
        } else {
            rest
        }
    }
}

/// Whether the dependency at `i` is the first one with its name.
pub open spec fn first_of_name(deps: Seq<DepInfo>, i: int) -> bool {
    forall|j: int| 0 <= j < i ==> #[trigger] deps[j].name@ != deps[i].name@
}

/// The report line for a name declared with several versions.
pub open spec fn conflict_line(name: Seq<char>, versions: Seq<Seq<char>>) -> Seq<char> {
    name + ": multiple versions — "@ + join(versions, ", "@)
}

/// The conflict lines for the names first declared among the first `k`
/// dependencies: one per name declared more than once, in order of first
/// declaration.
pub open spec fn conflicts_upto(deps: Seq<DepInfo>, k: int) -> Seq<Seq<char>>
    decreases k,
{
    if k <= 0 {
        seq![]
    } else {
        let rest = conflicts_upto(deps, k - 1);
        let n = deps[k - 1].name@;
        if first_of_name(deps, k - 1) && versions_of(deps, n).len() > 1 {
            rest.push(conflict_line(n, versions_of(deps, n)))
        } else {
            rest
        }
    }
}

/// The conflict lines of a dependency list.
pub open spec fn conflicts(deps: Seq<DepInfo>) -> Seq<Seq<char>> {
    conflicts_upto(deps, deps.len() as int)
}

/// The warnings about one dependency: a version starting with `0` is
/// pre-1.0; one mentioning `alpha`, `beta` or `rc` is a pre-release.
pub open spec fn dep_warnings(d: DepInfo) -> Seq<Seq<char>> {
    let head = d.name@ + "@"@ + d.version@;
    (if starts_with(d.version@, "0"@) {
        seq![head + " is pre-1.0, may have breaking changes"@]
    } else {
        seq![]
    }) + (if contains(d.version@, "alpha"@) || contains(d.version@, "beta"@) || contains(
        d.version@,
        "rc"@,
    ) {
        seq![head + " is pre-release"@]
    } else {
        seq![]
    })
}

/// The warnings about a dependency list, dependency by dependency.
pub open spec fn warnings(deps: Seq<DepInfo>) -> Seq<Seq<char>>
    decreases deps.len(),
{
    if deps.len() == 0 {
        seq![]
    } else {
        warnings(deps.drop_last()) + dep_warnings(deps.last())
    }
}

/// The suggestions: an all-clear when there is nothing to report.
pub open spec fn suggestions(deps: Seq<DepInfo>) -> Seq<Seq<char>> {
    if conflicts(deps).len() == 0 && warnings(deps).len() == 0 {
        seq!["No version conflicts detected"@]
    } else {
        seq![]
    }
}

/// A warning about one dependency is among the warnings of any list
/// that holds it.
proof fn lemma_dep_warning_listed(deps: Seq<DepInfo>, k: int, w: Seq<char>)
    requires
        0 <= k < deps.len(),
        dep_warnings(deps[k]).contains(w),
    ensures
        warnings(deps).contains(w),
    decreases deps.len(),
{
    let rest = deps.drop_last();
    if k == deps.len() - 1 {
        let j = choose|j: int| 0 <= j < dep_warnings(deps[k]).len() && dep_warnings(deps[k])[j] == w;
        assert(warnings(deps)[warnings(rest).len() + j] == w);
    } else {
        assert(rest[k] == deps[k]);
        lemma_dep_warning_listed(rest, k, w);
        let j = choose|j: int| 0 <= j < warnings(rest).len() && warnings(rest)[j] == w;
        assert(warnings(deps)[j] == w);
    }
}

/// A list none of whose versions starts with `0` or mentions `alpha`,
/// `beta` or `rc` gets no warning.
proof fn lemma_no_warnings(deps: Seq<DepInfo>)
    requires
        forall|j: int| 0 <= j < deps.len() ==> !starts_with(#[trigger] deps[j].version@, "0"@)
            && !contains(deps[j].version@, "alpha"@) && !contains(deps[j].version@, "beta"@)
            && !contains(deps[j].version@, "rc"@),
    ensures
        warnings(deps) == Seq::<Seq<char>>::empty(),
    decreases deps.len(),
{
    if deps.len() > 0 {
        let rest = deps.drop_last();
        assert forall|j: int| 0 <= j < rest.len() implies !starts_with(#[trigger] rest[j].version@, "0"@)
            && !contains(rest[j].version@, "alpha"@) && !contains(rest[j].version@, "beta"@)
            && !contains(rest[j].version@, "rc"@) by {
            assert(rest[j] == deps[j]);
        }
        lemma_no_warnings(rest);
        assert(deps.last() == deps[deps.len() - 1]);
        assert(warnings(deps) =~= Seq::<Seq<char>>::empty());
    }
}

/// Every dependency whose version mentions `alpha`, `beta` or `rc` is
/// warned about as a pre-release, and one whose version starts with `0`
/// as pre-1.0; either way the list gets no all-clear. A list with no such
/// version and no conflicting declarations gets no warning and the
/// all-clear.
pub proof fn lemma_version_warnings(deps: Seq<DepInfo>, k: int)
    ensures
        0 <= k < deps.len() && (contains(deps[k].version@, "alpha"@) || contains(deps[k].version@, "beta"@)
            || contains(deps[k].version@, "rc"@)) ==> warnings(deps).contains(
            deps[k].name@ + "@"@ + deps[k].version@ + " is pre-release"@,
        ) && suggestions(deps).len() == 0,
        0 <= k < deps.len() && starts_with(deps[k].version@, "0"@) ==> warnings(deps).contains(
            deps[k].name@ + "@"@ + deps[k].version@ + " is pre-1.0, may have breaking changes"@,
        ) && suggestions(deps).len() == 0,
        (forall|j: int| 0 <= j < deps.len() ==> !starts_with(#[trigger] deps[j].version@, "0"@)
            && !contains(deps[j].version@, "alpha"@) && !contains(deps[j].version@, "beta"@)
            && !contains(deps[j].version@, "rc"@)) && conflicts(deps).len() == 0 ==> warnings(deps).len() == 0
            && suggestions(deps) == seq!["No version conflicts detected"@],
{
    if 0 <= k < deps.len() {
        let d = deps[k];
        let head = d.name@ + "@"@ + d.version@;
        if contains(d.version@, "alpha"@) || contains(d.version@, "beta"@) || contains(d.version@, "rc"@) {
            let w = head + " is pre-release"@;
            assert(dep_warnings(d)[dep_warnings(d).len() - 1] == w);
            lemma_dep_warning_listed(deps, k, w);
        }
        if starts_with(d.version@, "0"@) {
            let w = head + " is pre-1.0, may have breaking changes"@;
            assert(dep_warnings(d)[0] == w);
            lemma_dep_warning_listed(deps, k, w);
        }
    }
    if forall|j: int| 0 <= j < deps.len() ==> !starts_with(#[trigger] deps[j].version@, "0"@)
        && !contains(deps[j].version@, "alpha"@) && !contains(deps[j].version@, "beta"@)
        && !contains(deps[j].version@, "rc"@) {
        lemma_no_warnings(deps);
    }
}

/// The versions declared for `name`.
fn versions_exec(deps: &[DepInfo], name: &str) -> (r: Vec<String>)
    ensures
        views(r@) == versions_of(deps@, name@),
{
    let mut out: Vec<String> = Vec::new();
    let mut i: usize = 0;
    while i < deps.len()
        invariant
            i <= deps.len(),
            views(out@) == versions_of(deps@.take(i as int), name@),
        decreases deps.len() - i,
    {
        let ghost before = out@;
        proof {
            assert(deps@.take(i + 1).drop_last() =~= deps@.take(i as int));
            assert(deps@.take(i + 1).last() == deps@[i as int]);
        }
        if str_eq(deps[i].name.as_str(), name) {
            out.push(deps[i].version.clone());
            assert(views(out@) =~= views(before).push(deps@[i as int].version@));
        }
        i += 1;
    }
    assert(deps@.take(i as int) =~= deps@);
    out
}

/// Whether no dependency before `i` has the name of the one at `i`.
fn is_first_of_name(deps: &[DepInfo], i: usize) -> (r: bool)
    requires
        i < deps.len(),
    ensures
        r == first_of_name(deps@, i as int),
{
    let mut j: usize = 0;
    while j < i
        invariant
            j <= i < deps.len(),
            forall|k: int| 0 <= k < j ==> #[trigger] deps@[k].name@ != deps@[i as int].name@,
        decreases i - j,
    {
        if str_eq(deps[j].name.as_str(), deps[i].name.as_str()) {
            assert(deps@[j as int].name@ == deps@[i as int].name@);
            assert(!first_of_name(deps@, i as int));
            return false;
        }
        j += 1;
    }
    true
}

/// The warnings about one dependency.
fn dep_warnings_exec(d: &DepInfo, out: &mut Vec<String>)
    ensures
        views(final(out)@) == views(old(out)@) + dep_warnings(*d),
{
    let ghost start = views(out@);
    let v = d.version.as_str();
    if str_starts_with(v, "0") {
        let mut w = d.name.clone();
        push_str(&mut w, "@");
        push_str(&mut w, v);
        push_str(&mut w, " is pre-1.0, may have breaking changes");
        out.push(w);
    }
    let ghost mid = views(out@);
    if str_contains(v, "alpha") || str_contains(v, "beta") || str_contains(v, "rc") {
        let mut w = d.name.clone();
        push_str(&mut w, "@");
        push_str(&mut w, v);
        push_str(&mut w, " is pre-release");
        out.push(w);
    }
    assert(views(out@) =~= start + dep_warnings(*d));
}

impl VersionResolver {
    /// Report the names declared with several versions (one line each, in
    /// order of first declaration), warnings about pre-1.0 and pre-release
    /// versions (dependency by dependency), and an all-clear suggestion
    /// when there is neither.
    pub fn check_conflicts(deps: &[DepInfo]) -> (r: ConflictReport)
        ensures
            views(r.conflicts@) == conflicts(deps@),
            views(r.warnings@) == warnings(deps@),
            views(r.suggestions@) == suggestions(deps@),
    {
        let mut found: Vec<String> = Vec::new();
        let mut i: usize = 0;
        while i < deps.len()
            invariant
                i <= deps.len(),
                views(found@) == conflicts_upto(deps@, i as int),
            decreases deps.len() - i,
        {
            let ghost before = found@;
            if is_first_of_name(deps, i) {
                let vers = versions_exec(deps, deps[i].name.as_str());
                if vers.len() > 1 {
                    let mut line = deps[i].name.clone();
                    push_str(&mut line, ": multiple versions — ");
                    let joined = join_exec(&vers, ", ");
                    push_str(&mut line, joined.as_str());
                    found.push(line);
                    assert(views(found@) =~= views(before).push(
                        conflict_line(deps@[i as int].name@, versions_of(deps@, deps@[i as int].name@)),
                    ));
                }
            }
            i += 1;
        }
        let mut warned: Vec<String> = Vec::new();
        let mut k: usize = 0;
        while k < deps.len()
            invariant
                k <= deps.len(),
                views(warned@) == warnings(deps@.take(k as int)),
            decreases deps.len() - k,
        {
            proof {
                assert(deps@.take(k + 1).drop_last() =~= deps@.take(k as int));
                assert(deps@.take(k + 1).last() == deps@[k as int]);
            }
            dep_warnings_exec(&deps[k], &mut warned);
            k += 1;
        }
        assert(deps@.take(k as int) =~= deps@);
        let mut suggestions: Vec<String> = Vec::new();
        if found.len() == 0 && warned.len() == 0 {
            suggestions.push(to_owned("No version conflicts detected"));
            assert(views(suggestions@) =~= seq!["No version conflicts detected"@]);
        } else {
            assert(views(suggestions@) =~= Seq::<Seq<char>>::empty());
        }
        ConflictReport { conflicts: found, warnings: warned, suggestions }
    }
}

/// A `name = version` entry of a `[dependencies]` table: the name before
/// the first `=`, and the value after it without surrounding quotes.
pub open spec fn cargo_entry(t: Seq<char>) -> (Seq<char>, Seq<char>) {
    let k = find_char(t, '=');
    let v = trim(t.skip(k + 1));
    (trim(t.take(k)), trim_end_char(trim_start_char(trim_end_char(trim_start_char(v, '"'), '"'), '\''), '\''))
}

/// Scanning one more manifest line: `[dependencies]` opens the table,
/// any other `[` header closes it, and inside it each non-empty,
/// non-comment line with an `=` is an entry.
pub open spec fn cargo_step(state: (bool, Seq<(Seq<char>, Seq<char>)>), line: Seq<char>) -> (bool, Seq<(Seq<char>, Seq<char>)>) {
    let t = trim(line);
    if t == "[dependencies]"@ {
        (true, state.1)
    } else if starts_with(t, "["@) {
        (false, state.1)
    } else if state.0 && t.len() > 0 && !starts_with(t, "#"@) && has_char(t, '=') {
        (true, state.1.push(cargo_entry(t)))
    } else {
        state
    }
}

/// The state after scanning the given lines.
pub open spec fn cargo_scan(ls: Seq<Seq<char>>) -> (bool, Seq<(Seq<char>, Seq<char>)>)
    decreases ls.len(),
{
    if ls.len() == 0 {
        (false, seq![])
    } else {
        cargo_step(cargo_scan(ls.drop_last()), ls.last())
    }
}

/// The `(name, version)` entries of a `Cargo.toml` text's
/// `[dependencies]` table, in order.
pub open spec fn cargo_entries(content: Seq<char>) -> Seq<(Seq<char>, Seq<char>)> {
    cargo_scan(lines(content)).1
}

/// Whether `d` is the dependency declared by `e` in a manifest `source`.
pub open spec fn declares(d: DepInfo, e: (Seq<char>, Seq<char>), source: Seq<char>, direct: bool) -> bool {
    &&& d.name@ == e.0
    &&& d.version@ == e.1
    &&& d.source@ == source
    &&& d.is_direct == direct
}

/// The entry on a trimmed line holding an `=`.
fn cargo_entry_exec(t: &str) -> (r: (String, String))
    requires
        has_char(t@, '='),
    ensures
        r.0@ == cargo_entry(t@).0,
        r.1@ == cargo_entry(t@).1,
{
    let cs = chars_of(t);
    let k = find_char_exec(&cs, '=');
    let name = string_from(&cs, 0, k);
    assert(cs@.subrange(0, k as int) =~= t@.take(k as int));
    proof {
        let j = choose|j: int| 0 <= j < t@.len() && t@[j] == '=';
        assert(k <= j);
    }
    assert(cs@.subrange(k + 1, cs.len() as int) =~= t@.skip(k + 1));
    let rest = string_from(&cs, k + 1, cs.len());
    let v = str_trim(rest.as_str());
    let unquoted = trim_char_exec(v.as_str(), '"');
    let ver = trim_char_exec(unquoted.as_str(), '\'');
    (str_trim(name.as_str()), ver)
}

impl VersionResolver {
    /// The direct dependencies a `Cargo.toml` text declares in its
    /// `[dependencies]` table, in order.
    pub fn parse_cargo_toml_content(content: &str) -> (r: Vec<DepInfo>)
        ensures
            r@.len() == cargo_entries(content@).len(),
            forall|i: int|
                0 <= i < r@.len() ==> declares(
                    #[trigger] r@[i],
                    cargo_entries(content@)[i],
                    "Cargo.toml"@,
                    true,
                ),
    {
        let ls = str_lines(content);
        let mut deps: Vec<DepInfo> = Vec::new();
        let mut in_deps = false;
        let mut i: usize = 0;
        while i < ls.len()
            invariant
                i <= ls.len(),
                views(ls@) == lines(content@),
                in_deps == cargo_scan(views(ls@).take(i as int)).0,
                deps@.len() == cargo_scan(views(ls@).take(i as int)).1.len(),
                forall|j: int|
                    0 <= j < deps@.len() ==> declares(
                        #[trigger] deps@[j],
                        cargo_scan(views(ls@).take(i as int)).1[j],
                        "Cargo.toml"@,
                        true,
                    ),
            decreases ls.len() - i,
        {
            proof {
                assert(views(ls@).take(i + 1).drop_last() =~= views(ls@).take(i as int));
                assert(views(ls@).take(i + 1).last() == ls@[i as int]@);
            }
            let t = str_trim(ls[i].as_str());
            let ts = t.as_str();
            if str_eq(ts, "[dependencies]") {
                in_deps = true;
            } else if str_starts_with(ts, "[") {
                in_deps = false;
            } else if in_deps && ts.unicode_len() > 0 && !str_starts_with(ts, "#") && str_contains(
                ts,
                "=",
            ) {
                proof {
                    reveal_strlit("=");
                    assert("="@ =~= seq!['=']);
                    lemma_contains_char(ts@, '=');
                }
                let (name, version) = cargo_entry_exec(ts);
                deps.push(
                    DepInfo { name, version, source: to_owned("Cargo.toml"), is_direct: true },
                );
            } else {
                proof {
                    reveal_strlit("=");
                    assert("="@ =~= seq!['=']);
                    lemma_contains_char(ts@, '=');
                }
            }
            i += 1;
        }
        assert(views(ls@).take(i as int) =~= views(ls@));
        deps
    }

    /// The dependencies a `pubspec.yaml` text yields. Only lines without
    /// `:` are read as entries (any other line ends the section), and an
    /// entry needs a `name: version` pair, so no line ever yields one: the
    /// list is always empty.
    pub fn parse_pubspec_content(content: &str) -> (r: Vec<DepInfo>)
        ensures
            r@.len() == 0,
    {
        let ls = str_lines(content);
        let mut deps: Vec<DepInfo> = Vec::new();
        let mut in_deps = false;
        let mut i: usize = 0;
        while i < ls.len()
            invariant
                i <= ls.len(),
                deps@.len() == 0,
            decreases ls.len() - i,
        {
            let t = str_trim(ls[i].as_str());
            let ts = t.as_str();
            if str_eq(ts, "dependencies:") || str_eq(ts, "dev_dependencies:") {
                in_deps = true;
            } else if !str_starts_with(ts, " ") && ts.unicode_len() > 0 && str_contains(ts, ":") {
                in_deps = false;
            } else if in_deps && ts.unicode_len() > 0 && !str_starts_with(ts, "#") {
                let cs = chars_of(ts);
                let k = find_char_exec(&cs, ':');
                if k < cs.len() {
                    proof {
                        reveal_strlit(" ");
                        reveal_strlit(":");
                        crate::text::lemma_trim_head(ls@[i as int]@);
                        assert(":"@ =~= seq![':']);
                        lemma_contains_char(ts@, ':');
                        assert(starts_with(ts@, " "@));
                        assert(ts@.subrange(0, 1)[0] == ts@[0]);
                        assert(false);
                    }
                    let name = string_from(&cs, 0, k);
                    let version = string_from(&cs, k + 1, cs.len());
                    deps.push(
                        DepInfo {
                            name: str_trim(name.as_str()),
                            version: str_trim(version.as_str()),
                            source: to_owned("pubspec.yaml"),
                            is_direct: true,
                        },
                    );
                }
            }
            i += 1;
        }
        deps
    }
}

/// The conflict lines so far are kept as more dependencies are read.
proof fn lemma_conflicts_grow(deps: Seq<DepInfo>, a: int, b: int)
    requires
        0 <= a <= b,
    ensures
        conflicts_upto(deps, a).len() <= conflicts_upto(deps, b).len(),
        forall|i: int|
            0 <= i < conflicts_upto(deps, a).len() ==> #[trigger] conflicts_upto(deps, b)[i]
                == conflicts_upto(deps, a)[i],
    decreases b - a,
{
    if a < b {
        lemma_conflicts_grow(deps, a, b - 1);
    }
}

/// Every conflict line is the line of a name declared more than once,
/// at its first declaration.
proof fn lemma_conflict_lines_sound(deps: Seq<DepInfo>, k: int)
    requires
        0 <= k <= deps.len(),
    ensures
        forall|i: int|
            0 <= i < conflicts_upto(deps, k).len() ==> exists|f: int|
                0 <= f < k && first_of_name(deps, f) && versions_of(deps, deps[f].name@).len() > 1
                    && #[trigger] conflicts_upto(deps, k)[i] == conflict_line(
                    deps[f].name@,
                    versions_of(deps, deps[f].name@),
                ),
    decreases k,
{
    if k > 0 {
        lemma_conflict_lines_sound(deps, k - 1);
        let prev = conflicts_upto(deps, k - 1);
        assert forall|i: int| 0 <= i < conflicts_upto(deps, k).len() implies exists|f: int|
            0 <= f < k && first_of_name(deps, f) && versions_of(deps, deps[f].name@).len() > 1
                && #[trigger] conflicts_upto(deps, k)[i] == conflict_line(
                deps[f].name@,
                versions_of(deps, deps[f].name@),
            ) by {
            if i < prev.len() {
                assert(conflicts_upto(deps, k)[i] == prev[i]);
                let f = choose|f: int|
                    0 <= f < k - 1 && first_of_name(deps, f) && versions_of(deps, deps[f].name@).len()
                        > 1 && #[trigger] prev[i] == conflict_line(
                        deps[f].name@,
                        versions_of(deps, deps[f].name@),
                    );
            } else {
                assert(first_of_name(deps, k - 1));
            }
        }
    }
}

/// Some dependency at or before `k` is the first with the name of the
/// one at `k`.
proof fn lemma_first_declaration(deps: Seq<DepInfo>, k: int)
    requires
        0 <= k < deps.len(),
    ensures
        exists|f: int| 0 <= f <= k && first_of_name(deps, f) && deps[f].name@ == deps[k].name@,
    decreases k,
{
    if !first_of_name(deps, k) {
        let j = choose|j: int| 0 <= j < k && #[trigger] deps[j].name@ == deps[k].name@;
        lemma_first_declaration(deps, j);
    }
}

/// Whether a line is the conflict line of a name declared more than once.
pub open spec fn repeated_name_line(deps: Seq<DepInfo>, line: Seq<char>) -> bool {
    exists|f: int|
        0 <= f < deps.len() && versions_of(deps, #[trigger] deps[f].name@).len() > 1 && line
            == conflict_line(deps[f].name@, versions_of(deps, deps[f].name@))
}

/// A name declared more than once always gets its conflict line, and
/// every conflict line belongs to such a name.
pub proof fn lemma_conflicts_exact(deps: Seq<DepInfo>)
    ensures
        forall|i: int|
            0 <= i < conflicts(deps).len() ==> repeated_name_line(deps, #[trigger] conflicts(deps)[i]),
        forall|k: int|
            0 <= k < deps.len() && versions_of(deps, #[trigger] deps[k].name@).len() > 1 ==> exists|
                i: int,
            |
                0 <= i < conflicts(deps).len() && #[trigger] conflicts(deps)[i] == conflict_line(
                    deps[k].name@,
                    versions_of(deps, deps[k].name@),
                ),
{
    lemma_conflict_lines_sound(deps, deps.len() as int);
    let all = conflicts_upto(deps, deps.len() as int);
    assert forall|i: int| 0 <= i < conflicts(deps).len() implies repeated_name_line(
        deps,
        #[trigger] conflicts(deps)[i],
    ) by {
        assert(conflicts(deps)[i] == all[i]);
        let f = choose|f: int|
            0 <= f < deps.len() && first_of_name(deps, f) && versions_of(deps, deps[f].name@).len() > 1
                && #[trigger] all[i] == conflict_line(deps[f].name@, versions_of(deps, deps[f].name@));
        assert(versions_of(deps, deps[f].name@).len() > 1);
    }
    assert forall|k: int|
        0 <= k < deps.len() && versions_of(deps, #[trigger] deps[k].name@).len() > 1 implies exists|
            i: int,
        |
            0 <= i < conflicts(deps).len() && #[trigger] conflicts(deps)[i] == conflict_line(
                deps[k].name@,
                versions_of(deps, deps[k].name@),
            ) by {
        lemma_first_declaration(deps, k);
        let f = choose|f: int| 0 <= f <= k && first_of_name(deps, f) && deps[f].name@ == deps[k].name@;
        let upto = conflicts_upto(deps, f + 1);
        assert(upto.last() == conflict_line(deps[k].name@, versions_of(deps, deps[k].name@)));
        lemma_conflicts_grow(deps, f + 1, deps.len() as int);
        assert(conflicts(deps)[upto.len() - 1] == upto[upto.len() - 1]);
    }
}


/// Whether a text is one JSON document, as `serde_json::from_str` reads it.
pub uninterp spec fn json_valid(content: Seq<char>) -> bool;

/// The object that a JSON document holds under `key` at its top level,
/// as `serde_json` parses it: each member as its name and, where the
/// member is a string, that string; `None` when there is no such member
/// or it is not an object.
pub uninterp spec fn json_table(content: Seq<char>, key: Seq<char>) -> Option<
    Seq<(Seq<char>, Option<Seq<char>>)>,
>;

/// A table entry by its view: the name, and the text where there is one.
pub open spec fn entry_view(e: (String, Option<String>)) -> (Seq<char>, Option<Seq<char>>) {
    (
        e.0@,
        match e.1 {
            Some(v) => Some(v@),
            None => None,
        },
    )
}

/// The entries of a table by their views.
pub open spec fn entry_views(es: Seq<(String, Option<String>)>) -> Seq<(Seq<char>, Option<Seq<char>>)> {
    es.map_values(|e: (String, Option<String>)| entry_view(e))
}

/// A table that may be absent, by its view.
pub open spec fn table_view(t: Option<Vec<(String, Option<String>)>>) -> Option<
    Seq<(Seq<char>, Option<Seq<char>>)>,
> {
    match t {
        Some(v) => Some(entry_views(v@)),
        None => None,
    }
}

/// The entries of a table, none where it is absent.
pub open spec fn table_or_empty(t: Option<Seq<(Seq<char>, Option<Seq<char>>)>>) -> Seq<
    (Seq<char>, Option<Seq<char>>),
> {
    match t {
        Some(es) => es,
        None => seq![],
    }
}

/// Whether no two entries share a name.
pub open spec fn distinct_names(es: Seq<(Seq<char>, Option<Seq<char>>)>) -> bool {
    forall|i: int, j: int| 0 <= i < j < es.len() ==> (#[trigger] es[i]).0 != (#[trigger] es[j]).0
}

/// `serde_json::from_str` into a `Value`, then the member `key` of the
/// document read as an object (`Value::get`, the `Object` variant, each
/// member of its map as its name and `Value::as_str`): the outer `None`
/// exactly when the text is not JSON, the inner `None` when the document
/// has no object under `key`. A `serde_json` map holds each name once.
#[verifier::external_body]
fn json_table_entries(content: &str, key: &str) -> (r: Option<Option<Vec<(String, Option<String>)>>>)
    ensures
        r is Some <==> json_valid(content@),
        r matches Some(t) ==> table_view(t) == json_table(content@, key@),
        r matches Some(Some(es)) ==> distinct_names(entry_views(es@)),
{
    let json: serde_json::Value = serde_json::from_str(content).ok()?;
    match json.get(key) {
        Some(serde_json::Value::Object(o)) => Some(Some(
            o.iter().map(|(name, v)| (name.clone(), v.as_str().map(String::from))).collect(),
        )),
        _ => Some(None),
    }
}

/// The entries of a table that may be absent.
pub open spec fn entries_of(t: Option<Vec<(String, Option<String>)>>) -> Seq<(String, Option<String>)> {
    match t {
        Some(v) => v@,
        None => seq![],
    }
}

/// A package manifest entry declares a dependency: its name, its version
/// (`latest` where the entry is not a string), and where it was read.
pub open spec fn declares_entry(
    d: DepInfo,
    e: (Seq<char>, Option<Seq<char>>),
    source: Seq<char>,
    direct: bool,
) -> bool {
    &&& d.name@ == e.0
    &&& d.version@ == match e.1 {
        Some(v) => v,
        None => "latest"@,
    }
    &&& d.source@ == source
    &&& d.is_direct == direct
}

/// The dependencies of a package manifest: one per runtime entry, in
/// order, then one per development entry.
pub open spec fn package_deps(
    ds: Seq<DepInfo>,
    runtime: Seq<(Seq<char>, Option<Seq<char>>)>,
    dev: Seq<(Seq<char>, Option<Seq<char>>)>,
) -> bool {
    &&& ds.len() == runtime.len() + dev.len()
    &&& forall|i: int|
        0 <= i < runtime.len() ==> declares_entry(
            #[trigger] ds[i],
            runtime[i],
            "package.json"@,
            true,
        )
    &&& forall|i: int|
        0 <= i < dev.len() ==> declares_entry(
            #[trigger] ds[runtime.len() + i],
            dev[i],
            "package.json (dev)"@,
            false,
        )
}

/// Append one dependency per table entry.
fn push_table_deps(
    deps: &mut Vec<DepInfo>,
    table: &Option<Vec<(String, Option<String>)>>,
    source: &str,
    direct: bool,
)
    ensures
        final(deps)@.len() == old(deps)@.len() + entries_of(*table).len(),
        forall|i: int|
            0 <= i < old(deps)@.len() ==> #[trigger] final(deps)@[i] == old(deps)@[i],
        forall|i: int|
            0 <= i < entries_of(*table).len() ==> declares_entry(
                #[trigger] final(deps)@[old(deps)@.len() + i],
                entry_view(entries_of(*table)[i]),
                source@,
                direct,
            ),
{
    proof {
        reveal_strlit("latest");
    }
    match table {
        None => {},
        Some(entries) => {
            let ghost start = deps@;
            let mut i: usize = 0;
            while i < entries.len()
                invariant
                    i <= entries.len(),
                    deps@.len() == start.len() + i,
                    forall|j: int| 0 <= j < start.len() ==> #[trigger] deps@[j] == start[j],
                    forall|j: int|
                        0 <= j < i ==> declares_entry(
                            #[trigger] deps@[start.len() + j],
                            entry_view(entries@[j]),
                            source@,
                            direct,
                        ),
                decreases entries.len() - i,
            {
                let name = to_owned(entries[i].0.as_str());
                let version = match &entries[i].1 {
                    Some(v) => to_owned(v.as_str()),
                    None => to_owned("latest"),
                };
                deps.push(DepInfo { name, version, source: to_owned(source), is_direct: direct });
                proof {
                    assert(deps@[start.len() + i as int] == deps@.last());
                }
                i += 1;
            }
        },
    }
}

impl VersionResolver {
    /// The dependencies read from the two tables of a `package.json`:
    /// the runtime ones first, then the development ones.
    pub fn deps_from_package_tables(
        runtime: Option<Vec<(String, Option<String>)>>,
        dev: Option<Vec<(String, Option<String>)>>,
    ) -> (r: Vec<DepInfo>)
        ensures
            package_deps(r@, entry_views(entries_of(runtime)), entry_views(entries_of(dev))),
    {
        let mut deps: Vec<DepInfo> = Vec::new();
        push_table_deps(&mut deps, &runtime, "package.json", true);
        let ghost first = deps@;
        push_table_deps(&mut deps, &dev, "package.json (dev)", false);
        proof {
            reveal_strlit("package.json");
            reveal_strlit("package.json (dev)");
            let rt = entry_views(entries_of(runtime));
            assert forall|i: int| 0 <= i < rt.len() implies declares_entry(
                #[trigger] deps@[i],
                rt[i],
                "package.json"@,
                true,
            ) by {
                assert(deps@[i] == first[0 + i]);
            }
            let dv = entry_views(entries_of(dev));
            assert forall|i: int| 0 <= i < dv.len() implies declares_entry(
                #[trigger] deps@[rt.len() + i],
                dv[i],
                "package.json (dev)"@,
                false,
            ) by {
                assert(deps@[rt.len() + i] == deps@[first.len() + i]);
            }
        }
        deps
    }

    /// The dependencies a `package.json` text declares under
    /// `dependencies` and `devDependencies`, runtime ones first, each table
    /// naming a dependency at most once; `None` when the text is not JSON.
    pub fn parse_package_json_content(content: &str) -> (r: Option<Vec<DepInfo>>)
        ensures
            r is Some <==> json_valid(content@),
            r matches Some(deps) ==> package_deps(
                deps@,
                table_or_empty(json_table(content@, "dependencies"@)),
                table_or_empty(json_table(content@, "devDependencies"@)),
            ),
            r is Some ==> distinct_names(table_or_empty(json_table(content@, "dependencies"@)))
                && distinct_names(table_or_empty(json_table(content@, "devDependencies"@))),
    {
        let runtime = match json_table_entries(content, "dependencies") {
            None => return None,
            Some(t) => t,
        };
        let dev = match json_table_entries(content, "devDependencies") {
            None => return None,
            Some(t) => t,
        };
        proof {
            assert(entry_views(entries_of(runtime)) == table_or_empty(json_table(content@, "dependencies"@)));
            assert(entry_views(entries_of(dev)) == table_or_empty(json_table(content@, "devDependencies"@)));
        }
        Some(Self::deps_from_package_tables(runtime, dev))
    }
}

} // verus!
