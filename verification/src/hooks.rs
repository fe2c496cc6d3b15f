//! Project hooks: which tools a project blocks, and which hook script
//! runs around each agent action.
use vstd::prelude::*;

use crate::text::{
    chars_of, lines, occurs_at, occurs_at_exec, split, starts_with, str_eq, str_lines,
    str_split, str_starts_with, str_trim, string_from, to_owned, trim, trim_char_exec, trim_start_matches_exec,
    trim_end_char, trim_start_char, trim_start_matches, views,
};

verus! {

/// The outcome of running a hook script.
#[derive(Debug, Clone)]
pub struct HookResult {
    pub passed: bool,
    pub stdout: String,
    pub stderr: String,
}

/// A hook to run: the script name under the hooks directory, and the
/// tool and arguments it is told about.
#[derive(Debug, Clone)]
pub struct HookCall {
    pub script: String,
    pub tool: String,
    pub args: String,
}

/// Runs project hooks and enforces the project's tool blocklist.
#[derive(Debug, Clone)]
pub struct HookRunner {
    hooks_dir: String,
    blocked_tools: Vec<String>,
}

/// The tool a `block = ` line names: after the prefix(es), without
/// surrounding quotes, the first comma-separated item, trimmed.
pub open spec fn blocked_item(l: Seq<char>) -> Seq<char> {
    let t = trim_end_char(trim_start_char(trim_start_matches(l, "block = "@), '"'), '"');
    trim(split(t, ","@)[0])
}

/// The tools a hooks configuration blocks: one per line that starts with
/// `block = `, in order.
pub open spec fn blocked_tools_in(ls: Seq<Seq<char>>) -> Seq<Seq<char>>
    decreases ls.len(),
{
    if ls.len() == 0 {
        seq![]
    } else {
        let rest = blocked_tools_in(ls.drop_last());
        if starts_with(ls.last(), "block = "@) {
            rest.push(blocked_item(ls.last()))
        } else {
            rest
        }
    }
}

/// The item a `block = ` line names.
fn blocked_item_exec(l: &str) -> (r: String)
    ensures
        r@ == blocked_item(l@),
{
    proof {
        reveal_strlit("block = ");
        reveal_strlit(",");
    }
    let rest = trim_start_matches_exec(l, "block = ");
    let t = trim_char_exec(rest.as_str(), '"');
    let parts = str_split(t.as_str(), ",");
    proof {
        crate::text::lemma_split_len(t@, ","@);
        assert(views(parts@)[0] == parts@[0]@);
    }
    str_trim(parts[0].as_str())
}

/// The tools blocked by a hooks configuration file.
pub fn parse_blocked_tools(content: &str) -> (r: Vec<String>)
    ensures
        views(r@) == blocked_tools_in(lines(content@)),
{
    let ls = str_lines(content);
    let mut out: Vec<String> = Vec::new();
    let mut i: usize = 0;
    while i < ls.len()
        invariant
            i <= ls.len(),
            views(ls@) == lines(content@),
            views(out@) == blocked_tools_in(views(ls@).take(i as int)),
        decreases ls.len() - i,
    {
        let ghost before = out@;
        proof {
            assert(views(ls@).take(i + 1).drop_last() =~= views(ls@).take(i as int));
            assert(views(ls@).take(i + 1).last() == ls@[i as int]@);
        }
        if str_starts_with(ls[i].as_str(), "block = ") {
            let item = blocked_item_exec(ls[i].as_str());
            out.push(item);
            assert(views(out@) =~= views(before).push(item@));
        }
        i += 1;
    }
    assert(views(ls@).take(i as int) =~= views(ls@));
    out
}

/// A hook call for a script.
fn call(script: &str, tool: &str, args: &str) -> (c: HookCall)
    ensures
        c.script@ == script@,
        c.tool@ == tool@,
        c.args@ == args@,
{
    HookCall { script: to_owned(script), tool: to_owned(tool), args: to_owned(args) }
}

impl HookRunner {
    /// The hooks directory.
    pub closed spec fn dir(&self) -> Seq<char> {
        self.hooks_dir@
    }

    /// The blocked tools.
    pub closed spec fn blocked(&self) -> Seq<Seq<char>> {
        views(self.blocked_tools@)
    }

    /// A runner for the hooks in `hooks_dir`, given the text of its
    /// configuration file when there is one.
    pub fn new(hooks_dir: String, config: Option<&str>) -> (r: Self)
        ensures
            r.dir() == hooks_dir@,
            config matches Some(c) ==> r.blocked() == blocked_tools_in(lines(c@)),
            config is None ==> r.blocked().len() == 0,
    {
        let blocked_tools = match config {
            Some(c) => parse_blocked_tools(c),
            None => Vec::new(),
        };
        HookRunner { hooks_dir, blocked_tools }
    }

    /// The hooks directory.
    pub fn hooks_dir(&self) -> (r: &str)
        ensures
            r@ == self.dir(),
    {
        self.hooks_dir.as_str()
    }

    /// Whether the project blocks a tool.
    pub fn is_blocked(&self, tool: &str) -> (r: bool)
        ensures
            r == exists|i: int| 0 <= i < self.blocked().len() && self.blocked()[i] == tool@,
    {
        let mut i: usize = 0;
        while i < self.blocked_tools.len()
            invariant
                i <= self.blocked_tools.len(),
                forall|j: int| 0 <= j < i ==> self.blocked()[j] != tool@,
            decreases self.blocked_tools.len() - i,
        {
            if str_eq(self.blocked_tools[i].as_str(), tool) {
                assert(self.blocked()[i as int] == tool@);
                return true;
            }
            i += 1;
        }
        false
    }

    /// The hook before a tool runs.
    pub fn pre_tool(&self, tool: &str, args: &str) -> (c: HookCall)
        ensures
            c.script@ == "pre-tool.sh"@,
            c.tool@ == tool@,
            c.args@ == args@,
    {
        call("pre-tool.sh", tool, args)
    }

    /// The hook after a tool runs.
    pub fn post_tool(&self, tool: &str, args: &str) -> (c: HookCall)
        ensures
            c.script@ == "post-tool.sh"@,
            c.tool@ == tool@,
            c.args@ == args@,
    {
        call("post-tool.sh", tool, args)
    }

    /// The hook before generation.
    pub fn pre_generate(&self) -> (c: HookCall)
        ensures
            c.script@ == "pre-generate.sh"@,
            c.tool@ == ""@,
            c.args@ == ""@,
    {
        call("pre-generate.sh", "", "")
    }

    /// The hook after generation.
    pub fn post_generate(&self) -> (c: HookCall)
        ensures
            c.script@ == "post-generate.sh"@,
            c.tool@ == ""@,
            c.args@ == ""@,
    {
        call("post-generate.sh", "", "")
    }

    /// The hook before research.
    pub fn pre_research(&self) -> (c: HookCall)
        ensures
            c.script@ == "pre-research.sh"@,
            c.tool@ == ""@,
            c.args@ == ""@,
    {
        call("pre-research.sh", "", "")
    }

    /// The hook after research.
    pub fn post_research(&self) -> (c: HookCall)
        ensures
            c.script@ == "post-research.sh"@,
            c.tool@ == ""@,
            c.args@ == ""@,
    {
        call("post-research.sh", "", "")
    }

    /// The hook before a shell command: the `shell_run` tool with the
    /// command as its arguments.
    pub fn pre_shell(&self, command: &str) -> (c: HookCall)
        ensures
            c.script@ == "pre-shell.sh"@,
            c.tool@ == "shell_run"@,
            c.args@ == command@,
    {
        call("pre-shell.sh", "shell_run", command)
    }
}

} // verus!
