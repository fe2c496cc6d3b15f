//! Project rules: how a rule file's location sets its type, and the
//! rules block injected into the prompt.
use vstd::prelude::*;

use crate::text::{
    chars_of, find_char, lemma_split_len, lines, push_str, split, str_eq, str_lines, str_split,
    string_from, to_owned, views,
};

verus! {

/// When a rule applies.
#[derive(Debug, Clone, Copy, PartialEq, Eq, Structural)]
pub enum RuleType {
    Always,
    AgentRequested,
    Manual,
}

/// A rule file: where it lives, what it says, when it applies.
#[derive(Debug, Clone)]
pub struct Rule {
    pub path: String,
    pub content: String,
    pub rule_type: RuleType,
}

/// The components of a `/`-separated path that name something: the
/// pieces between separators, without empty pieces and `.`.
pub open spec fn path_parts(path: Seq<char>) -> Seq<Seq<char>> {
    split(path, "/"@).filter(|c: Seq<char>| c.len() > 0 && c != "."@)
}

/// The name of the directory holding a file (`Path::parent` then
/// `Path::file_name`): the next-to-last component, unless it is `..` or
/// there is none.
pub open spec fn parent_name(path: Seq<char>) -> Option<Seq<char>> {
    let cs = path_parts(path);
    if cs.len() >= 2 && cs[cs.len() - 2] != ".."@ {
        Some(cs[cs.len() - 2])
    } else {
        None
    }
}

/// The stem of a file name: what precedes its last `.`, unless that `.`
/// starts the name.
pub open spec fn stem_of(name: Seq<char>) -> Seq<char> {
    let r = find_char(name.reverse(), '.');
    if r < name.len() && name.len() - 1 - r > 0 {
        name.take(name.len() - 1 - r)
    } else {
        name
    }
}

/// The stem of a path's file name (`Path::file_stem`), if it has one.
pub open spec fn file_stem(path: Seq<char>) -> Option<Seq<char>> {
    let cs = path_parts(path);
    if cs.len() == 0 || cs.last() == ".."@ {
        None
    } else {
        Some(stem_of(cs.last()))
    }
}

/// The type of a rule by the directory that holds it.
pub open spec fn rule_type_for(path: Seq<char>) -> RuleType {
    match parent_name(path) {
        Some(n) => if n == "always"@ {
            RuleType::Always
        } else if n == "agent_requested"@ {
            RuleType::AgentRequested
        } else {
            RuleType::Manual
        },
        None => RuleType::Manual,
    }
}

/// The named components of a path.
fn path_parts_exec(path: &str) -> (r: Vec<String>)
    ensures
        views(r@) == path_parts(path@),
{
    proof {
        reveal_strlit("/");
        reveal_strlit(".");
    }
    let pieces = str_split(path, "/");
    let ghost all = views(pieces@);
    let ghost keep = |c: Seq<char>| c.len() > 0 && c != "."@;
    let mut out: Vec<String> = Vec::new();
    let mut i: usize = 0;
    while i < pieces.len()
        invariant
            i <= pieces.len(),
            all == views(pieces@),
            keep == (|c: Seq<char>| c.len() > 0 && c != "."@),
            views(out@) == all.take(i as int).filter(keep),
        decreases pieces.len() - i,
    {
        let ghost before = out@;
        proof {
            assert(all.take(i + 1).drop_last() =~= all.take(i as int));
            assert(all.take(i + 1).last() == pieces@[i as int]@);
            reveal(Seq::filter);
        }
        let p = pieces[i].as_str();
        if p.unicode_len() > 0 && !str_eq(p, ".") {
            out.push(pieces[i].clone());
            assert(views(out@) =~= views(before).push(pieces@[i as int]@));
        }
        i += 1;
    }
    assert(all.take(i as int) =~= all);
    out
}

impl RuleType {
    /// The type of the rule stored at `path`: `always/…` rules always
    /// apply, `agent_requested/…` rules on request, any other on demand.
    pub fn from_path(path: &str) -> (r: RuleType)
        ensures
            r == rule_type_for(path@),
    {
        let cs = path_parts_exec(path);
        let n = cs.len();
        if n >= 2 && !str_eq(cs[n - 2].as_str(), "..") {
            let name = cs[n - 2].as_str();
            assert(views(cs@)[n - 2] == name@);
            if str_eq(name, "always") {
                RuleType::Always
            } else if str_eq(name, "agent_requested") {
                RuleType::AgentRequested
            } else {
                RuleType::Manual
            }
        } else {
            proof {
                if n >= 2 {
                    assert(views(cs@)[n - 2] == cs@[n - 2]@);
                }
            }
            RuleType::Manual
        }
    }
}

/// The stem of a file name.
fn stem_exec(name: &str) -> (r: String)
    ensures
        r@ == stem_of(name@),
{
    let cs = chars_of(name);
    let n = cs.len();
    let mut k = n;
    while k > 0 && cs[k - 1] != '.'
        invariant
            k <= n,
            n == cs@.len(),
            forall|j: int| k <= j < n ==> cs@[j] != '.',
        decreases k,
    {
        k -= 1;
    }
    proof {
        let rv = cs@.reverse();
        let r = n - k;
        if k > 0 {
            assert forall|j: int| 0 <= j < r implies rv[j] != '.' by {
                assert(rv[j] == cs@[n - 1 - j]);
            }
            assert(rv[r] == cs@[k - 1]);
            crate::text::lemma_find_char_is(rv, '.', r);
        } else {
            assert forall|j: int| 0 <= j < rv.len() implies rv[j] != '.' by {
                assert(rv[j] == cs@[n - 1 - j]);
            }
            crate::text::lemma_find_char_is(rv, '.', rv.len() as int);
        }
    }
    if k > 1 {
        string_from(&cs, 0, k - 1)
    } else {
        assert(cs@.subrange(0, n as int) =~= cs@);
        string_from(&cs, 0, n)
    }
}

/// The stem of a path's file name, computed.
fn file_stem_exec(path: &str) -> (r: Option<String>)
    ensures
        r matches Some(s) ==> file_stem(path@) == Some(s@),
        r is None ==> file_stem(path@) is None,
{
    let cs = path_parts_exec(path);
    let n = cs.len();
    if n == 0 || str_eq(cs[n - 1].as_str(), "..") {
        return None;
    }
    assert(views(cs@).last() == cs@[n - 1]@);
    Some(stem_exec(cs[n - 1].as_str()))
}

/// The first line of a text, or the whole text when it has no lines.
pub open spec fn first_line(s: Seq<char>) -> Seq<char> {
    if lines(s).len() > 0 {
        lines(s)[0]
    } else {
        s
    }
}

/// The always-applied rules section body: each rule's content and a
/// newline.
pub open spec fn always_body(rules: Seq<Rule>) -> Seq<char>
    decreases rules.len(),
{
    if rules.len() == 0 {
        seq![]
    } else {
        always_body(rules.drop_last()) + if rules.last().rule_type == RuleType::Always {
            rules.last().content@ + "\n"@
        } else {
            seq![]
        }
    }
}

/// The line describing a requestable rule.
pub open spec fn requested_line(r: Rule) -> Seq<char> {
    let name = match file_stem(r.path@) {
        Some(n) => n,
        None => "unknown"@,
    };
    REQUESTED_INTRO@ + name + ": "@ + first_line(r.content@) + "\n"@
}

/// The requestable rules section body.
pub open spec fn requested_body(rules: Seq<Rule>) -> Seq<char>
    decreases rules.len(),
{
    if rules.len() == 0 {
        seq![]
    } else {
        requested_body(rules.drop_last()) + if rules.last().rule_type == RuleType::AgentRequested {
            requested_line(rules.last())
        } else {
            seq![]
        }
    }
}

/// Whether any rule has the given type.
pub open spec fn has_type(rules: Seq<Rule>, t: RuleType) -> bool {
    exists|i: int| 0 <= i < rules.len() && #[trigger] rules[i].rule_type == t
}

/// Opening of the rules block.
pub const RULES_INTRO: &'static str = "<rules>\nThe rules section has a number of possible rules/memories/context that you should consider. In each subsection, we provide instructions about what information the subsection contains and how you should consider/follow the contents of the subsection.\n\n";

/// Opening of the always-applied section.
pub const ALWAYS_OPEN: &'static str = "<always_applied_workspace_rules description=\"These are rules set by the project that you should follow if appropriate.\">\n";

/// Closing of the always-applied section.
pub const ALWAYS_CLOSE: &'static str = "</always_applied_workspace_rules>\n\n";

/// Opening of the requestable section.
pub const REQUESTED_OPEN: &'static str = "<agent_requestable_workspace_rules description=\"These are workspace-level rules that the agent should follow. They can request the full details of the rule with the read_rules tool.\">\n";

/// Text before each requestable rule.
pub const REQUESTED_INTRO: &'static str = "Use read rule tool to fetch the rule content if needed. In <agent_requestable_workspace_rules> section, key is rule's path, value is rule's description.\n- ";

/// Closing of the requestable section.
pub const REQUESTED_CLOSE: &'static str = "</agent_requestable_workspace_rules>\n\n";

/// The rules block for a prompt: nothing without rules; otherwise the
/// intro, the always-applied rules, the requestable rules (each section
/// only when it has rules), and the closing tag.
pub open spec fn rules_prompt(rules: Seq<Rule>) -> Seq<char> {
    if rules.len() == 0 {
        seq![]
    } else {
        RULES_INTRO@ + (if has_type(rules, RuleType::Always) {
            ALWAYS_OPEN@ + always_body(rules) + ALWAYS_CLOSE@
        } else {
            seq![]
        }) + (if has_type(rules, RuleType::AgentRequested) {
            REQUESTED_OPEN@ + requested_body(rules) + REQUESTED_CLOSE@
        } else {
            seq![]
        }) + "</rules>\n"@
    }
}

/// Extending a list of rules by one adds that rule's type to the types
/// present.
proof fn lemma_has_type_step(rules: Seq<Rule>, i: int, t: RuleType)
    requires
        0 <= i < rules.len(),
    ensures
        has_type(rules.take(i + 1), t) == (has_type(rules.take(i), t) || rules[i].rule_type == t),
{
    let pre = rules.take(i);
    let next = rules.take(i + 1);
    if has_type(next, t) {
        let j = choose|j: int| 0 <= j < next.len() && #[trigger] next[j].rule_type == t;
        if j < i {
            assert(pre[j] == next[j]);
        }
    }
    if has_type(pre, t) {
        let j = choose|j: int| 0 <= j < pre.len() && #[trigger] pre[j].rule_type == t;
        assert(next[j] == pre[j]);
    }
    if rules[i].rule_type == t {
        assert(next[i] == rules[i]);
    }
}

/// The first line of a text, computed.
fn first_line_exec(s: &str) -> (r: String)
    ensures
        r@ == first_line(s@),
{
    let ls = str_lines(s);
    if ls.len() > 0 {
        assert(views(ls@)[0] == ls@[0]@);
        ls[0].clone()
    } else {
        to_owned(s)
    }
}

/// Build the rules block injected into the prompt.
pub fn build_rules_prompt(rules: &[Rule]) -> (r: String)
    ensures
        r@ == rules_prompt(rules@),
{
    if rules.len() == 0 {
        return String::new();
    }
    let mut always = String::new();
    let mut requested = String::new();
    let mut has_always = false;
    let mut has_requested = false;
    let mut i: usize = 0;
    while i < rules.len()
        invariant
            i <= rules.len(),
            always@ == always_body(rules@.take(i as int)),
            requested@ == requested_body(rules@.take(i as int)),
            has_always == has_type(rules@.take(i as int), RuleType::Always),
            has_requested == has_type(rules@.take(i as int), RuleType::AgentRequested),
        decreases rules.len() - i,
    {
        let ghost pre = rules@.take(i as int);
        proof {
            assert(rules@.take(i + 1).drop_last() =~= pre);
            assert(rules@.take(i + 1).last() == rules@[i as int]);
        }
        proof {
            lemma_has_type_step(rules@, i as int, RuleType::Always);
            lemma_has_type_step(rules@, i as int, RuleType::AgentRequested);
        }
        let rule = &rules[i];
        match rule.rule_type {
            RuleType::Always => {
                push_str(&mut always, rule.content.as_str());
                push_str(&mut always, "\n");
                has_always = true;
                assert(requested@ =~= requested_body(pre) + Seq::<char>::empty());
            },
            RuleType::AgentRequested => {
                push_str(&mut requested, REQUESTED_INTRO);
                let name = match file_stem_exec(rule.path.as_str()) {
                    Some(n) => n,
                    None => to_owned("unknown"),
                };
                push_str(&mut requested, name.as_str());
                push_str(&mut requested, ": ");
                let fl = first_line_exec(rule.content.as_str());
                push_str(&mut requested, fl.as_str());
                push_str(&mut requested, "\n");
                has_requested = true;
                assert(requested@ =~= requested_body(pre) + requested_line(rules@[i as int]));
                assert(always@ =~= always_body(pre) + Seq::<char>::empty());
            },
            RuleType::Manual => {
                assert(always@ =~= always_body(pre) + Seq::<char>::empty());
                assert(requested@ =~= requested_body(pre) + Seq::<char>::empty());
            },
        }
        i += 1;
    }
    assert(rules@.take(i as int) =~= rules@);
    let mut prompt = to_owned(RULES_INTRO);
    if has_always {
        push_str(&mut prompt, ALWAYS_OPEN);
        push_str(&mut prompt, always.as_str());
        push_str(&mut prompt, ALWAYS_CLOSE);
    }
    if has_requested {
        push_str(&mut prompt, REQUESTED_OPEN);
        push_str(&mut prompt, requested.as_str());
        push_str(&mut prompt, REQUESTED_CLOSE);
    }
    push_str(&mut prompt, "</rules>\n");
    proof {
        assert(prompt@ =~= rules_prompt(rules@));
    }
    prompt
}

} // verus!
