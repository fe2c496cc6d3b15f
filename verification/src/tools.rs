//! The agent's tools: where they work, which shell commands the safety
//! policy refuses, and how a command's output is reported.
use vstd::prelude::*;

use crate::text::{
    byte_len, byte_len_exact, chars_of, contains, decimal, decimal_string, push_str, starts_with,
    str_contains, str_eq, str_starts_with, string_from, to_owned, views,
};

verus! {

/// Reads files under a project root.
#[derive(Debug, Clone)]
pub struct FileReadTool {
    root: String,
}

/// Writes files under a project root.
#[derive(Debug, Clone)]
pub struct FileWriteTool {
    root: String,
}

/// Runs shell commands in a project root, with a time limit.
#[derive(Debug, Clone)]
pub struct ShellRunTool {
    root: String,
    timeout_ms: u64,
}

impl FileReadTool {
    /// The project root.
    pub closed spec fn root_dir(&self) -> Seq<char> {
        self.root@
    }

    /// A tool rooted at `root`.
    pub fn new(root: String) -> (r: Self)
        ensures
            r.root_dir() == root@,
    {
        FileReadTool { root }
    }

    /// The project root.
    pub fn root(&self) -> (r: &str)
        ensures
            r@ == self.root_dir(),
    {
        self.root.as_str()
    }
}

impl FileWriteTool {
    /// The project root.
    pub closed spec fn root_dir(&self) -> Seq<char> {
        self.root@
    }

    /// A tool rooted at `root`.
    pub fn new(root: String) -> (r: Self)
        ensures
            r.root_dir() == root@,
    {
        FileWriteTool { root }
    }

    /// The project root.
    pub fn root(&self) -> (r: &str)
        ensures
            r@ == self.root_dir(),
    {
        self.root.as_str()
    }
}

/// Whether some argument is one of two flags.
pub open spec fn has_flag(args: Seq<Seq<char>>, a: Seq<char>, b: Seq<char>) -> bool {
    exists|i: int| 0 <= i < args.len() && (#[trigger] args[i] == a || args[i] == b)
}

/// Whether some argument starts with, or contains, a text.
pub open spec fn has_arg_starting(args: Seq<Seq<char>>, p: Seq<char>) -> bool {
    exists|i: int| 0 <= i < args.len() && starts_with(#[trigger] args[i], p)
}

/// Whether some argument contains a text.
pub open spec fn has_arg_containing(args: Seq<Seq<char>>, p: Seq<char>) -> bool {
    exists|i: int| 0 <= i < args.len() && contains(#[trigger] args[i], p)
}

/// Why the safety policy refuses a command, if it does: recursive
/// forced removal, formatting a filesystem, `dd` onto a device, powering
/// the system off, and a recursive `chmod` to 777.
pub open spec fn block_reason(command: Seq<char>, args: Seq<Seq<char>>) -> Option<Seq<char>> {
    if command == "rm"@ && has_flag(args, "-rf"@, "-fr"@) {
        Some("destructive: rm -rf"@)
    } else if command == "mkfs"@ || command == "mkfs.ext4"@ || command == "mkfs.ntfs"@ {
        Some("destructive: filesystem format"@)
    } else if command == "dd"@ && has_arg_starting(args, "of=/dev/"@) {
        Some("destructive: dd to device"@)
    } else if command == "shutdown"@ || command == "reboot"@ || command == "halt"@ || command
        == "poweroff"@ {
        Some("destructive: system power"@)
    } else if command == "chmod"@ && has_flag(args, "-R"@, "--recursive"@) && has_arg_containing(
        args,
        "777"@,
    ) {
        Some("destructive: recursive chmod 777"@)
    } else {
        None
    }
}

/// Whether some argument is one of two flags, computed.
fn has_flag_exec(args: &[String], a: &str, b: &str) -> (r: bool)
    ensures
        r == has_flag(views(args@), a@, b@),
{
    let mut i: usize = 0;
    while i < args.len()
        invariant
            i <= args.len(),
            forall|j: int| 0 <= j < i ==> #[trigger] args@[j]@ != a@ && args@[j]@ != b@,
        decreases args.len() - i,
    {
        if str_eq(args[i].as_str(), a) || str_eq(args[i].as_str(), b) {
            assert(views(args@)[i as int] == args@[i as int]@);
            return true;
        }
        i += 1;
    }
    proof {
        if has_flag(views(args@), a@, b@) {
            let j = choose|j: int| 0 <= j < views(args@).len() && (#[trigger] views(args@)[j] == a@ || views(args@)[j] == b@);
            assert(views(args@)[j] == args@[j]@);
        }
    }
    false
}

/// Whether some argument starts with a text, computed.
fn has_arg_starting_exec(args: &[String], p: &str) -> (r: bool)
    ensures
        r == has_arg_starting(views(args@), p@),
{
    let mut i: usize = 0;
    while i < args.len()
        invariant
            i <= args.len(),
            forall|j: int| 0 <= j < i ==> !starts_with(#[trigger] args@[j]@, p@),
        decreases args.len() - i,
    {
        if str_starts_with(args[i].as_str(), p) {
            assert(views(args@)[i as int] == args@[i as int]@);
            return true;
        }
        i += 1;
    }
    proof {
        if has_arg_starting(views(args@), p@) {
            let j = choose|j: int| 0 <= j < views(args@).len() && starts_with(#[trigger] views(args@)[j], p@);
            assert(views(args@)[j] == args@[j]@);
        }
    }
    false
}

/// Whether some argument contains a text, computed.
fn has_arg_containing_exec(args: &[String], p: &str) -> (r: bool)
    ensures
        r == has_arg_containing(views(args@), p@),
{
    let mut i: usize = 0;
    while i < args.len()
        invariant
            i <= args.len(),
            forall|j: int| 0 <= j < i ==> !contains(#[trigger] args@[j]@, p@),
        decreases args.len() - i,
    {
        if str_contains(args[i].as_str(), p) {
            assert(views(args@)[i as int] == args@[i as int]@);
            return true;
        }
        i += 1;
    }
    proof {
        if has_arg_containing(views(args@), p@) {
            let j = choose|j: int| 0 <= j < views(args@).len() && contains(#[trigger] views(args@)[j], p@);
            assert(views(args@)[j] == args@[j]@);
        }
    }
    false
}

/// Why the safety policy refuses a command with its arguments, if it
/// does.
pub fn is_blocked(command: &str, args: &[String]) -> (r: Option<&'static str>)
    ensures
        match block_reason(command@, views(args@)) {
            Some(reason) => r matches Some(s) && s@ == reason,
            None => r is None,
        },
{
    if str_eq(command, "rm") && has_flag_exec(args, "-rf", "-fr") {
        Some("destructive: rm -rf")
    } else if str_eq(command, "mkfs") || str_eq(command, "mkfs.ext4") || str_eq(command, "mkfs.ntfs") {
        Some("destructive: filesystem format")
    } else if str_eq(command, "dd") && has_arg_starting_exec(args, "of=/dev/") {
        Some("destructive: dd to device")
    } else if str_eq(command, "shutdown") || str_eq(command, "reboot") || str_eq(command, "halt")
        || str_eq(command, "poweroff") {
        Some("destructive: system power")
    } else if str_eq(command, "chmod") && has_flag_exec(args, "-R", "--recursive")
        && has_arg_containing_exec(args, "777") {
        Some("destructive: recursive chmod 777")
    } else {
        None
    }
}

/// Whether a path lies under a root, compared by whole components: the
/// root's components begin the path's.
pub open spec fn under_root(root: Seq<Seq<char>>, path: Seq<Seq<char>>) -> bool {
    root.len() <= path.len() && path.take(root.len() as int) == root
}

/// The refusal of a path that leaves the project root.
pub open spec fn outside_root_message(path: Seq<char>) -> Seq<char> {
    "path `"@ + path + "` is outside the project root"@
}

/// Whether a path given to a file tool may be used: a path is refused
/// when its resolved form does not lie under the canonical root, whether
/// or not it exists yet. The components are those of the resolved forms.
pub fn check_under_root(
    path: &str,
    root_components: &[String],
    resolved_components: &[String],
) -> (r: Result<(), String>)
    ensures
        r is Err <==> !under_root(views(root_components@), views(resolved_components@)),
        r matches Err(m) ==> m@ == outside_root_message(path@),
{
    let mut under = root_components.len() <= resolved_components.len();
    if under {
        let mut i: usize = 0;
        while i < root_components.len() && under
            invariant
                i <= root_components@.len() <= resolved_components@.len(),
                under ==> forall|j: int| 0 <= j < i ==> root_components@[j]@ == resolved_components@[j]@,
                !under ==> !under_root(views(root_components@), views(resolved_components@)),
            decreases root_components.len() - i,
        {
            if !str_eq(root_components[i].as_str(), resolved_components[i].as_str()) {
                under = false;
                proof {
                    assert(views(resolved_components@).take(root_components@.len() as int)[i as int]
                        != views(root_components@)[i as int]);
                }
            }
            i += 1;
        }
        if under {
            assert(views(resolved_components@).take(root_components@.len() as int) =~= views(
                root_components@,
            ));
        }
    }
    if !under {
        let mut m = to_owned("path `");
        push_str(&mut m, path);
        push_str(&mut m, "` is outside the project root");
        Err(m)
    } else {
        Ok(())
    }
}

/// A signed number in decimal.
pub open spec fn int_text(i: int) -> Seq<char> {
    if i < 0 {
        "-"@ + decimal((-i) as nat)
    } else {
        decimal(i as nat)
    }
}

/// The output of a command: standard output, then standard error on a
/// line of its own.
pub open spec fn combined_output(out: Seq<char>, err: Seq<char>) -> Seq<char> {
    if err.len() == 0 {
        out
    } else if out.len() == 0 {
        err
    } else {
        out + "\n"@ + err
    }
}

/// Output of more than 20 000 bytes is cut to its first 20 000
/// characters and marked as truncated.
pub open spec fn truncated_output(c: Seq<char>) -> Seq<char> {
    if byte_len(c) > 20000 {
        c.take(if c.len() < 20000 {
            c.len() as int
        } else {
            20000
        }) + "\n…[truncated]"@
    } else {
        c
    }
}

/// The report of a finished command: its exit code (`-1` when it has
/// none) and its output.
pub open spec fn shell_report(exit_code: Option<i32>, out: Seq<char>, err: Seq<char>) -> Seq<char> {
    "exit="@ + int_text(
        match exit_code {
            Some(c) => c as int,
            None => -1,
        },
    ) + "\n"@ + truncated_output(combined_output(out, err))
}

/// A signed number in decimal, computed.
fn int_text_exec(i: i32) -> (r: String)
    ensures
        r@ == int_text(i as int),
{
    if i < 0 {
        let mut s = to_owned("-");
        let m: i64 = -(i as i64);
        let d = decimal_string(m as u128);
        push_str(&mut s, d.as_str());
        s
    } else {
        decimal_string(i as u128)
    }
}

impl ShellRunTool {
    /// The project root.
    pub closed spec fn root_dir(&self) -> Seq<char> {
        self.root@
    }

    /// The time limit of a command, in milliseconds.
    pub closed spec fn limit_ms(&self) -> u64 {
        self.timeout_ms
    }

    /// A tool rooted at `root` that gives each command `timeout_ms`
    /// milliseconds.
    pub fn new(root: String, timeout_ms: u64) -> (r: Self)
        ensures
            r.root_dir() == root@,
            r.limit_ms() == timeout_ms,
    {
        ShellRunTool { root, timeout_ms }
    }

    /// The project root.
    pub fn root(&self) -> (r: &str)
        ensures
            r@ == self.root_dir(),
    {
        self.root.as_str()
    }

    /// The time limit of a command, in milliseconds.
    pub fn timeout_ms(&self) -> (r: u64)
        ensures
            r == self.limit_ms(),
    {
        self.timeout_ms
    }

    /// The report of a finished command, given its exit code and its
    /// standard output and error as text.
    pub fn report(exit_code: Option<i32>, stdout: &str, stderr: &str) -> (r: String)
        ensures
            r@ == shell_report(exit_code, stdout@, stderr@),
    {
        let mut combined = String::new();
        if stdout.unicode_len() > 0 {
            push_str(&mut combined, stdout);
        }
        if stderr.unicode_len() > 0 {
            if combined.as_str().unicode_len() > 0 {
                push_str(&mut combined, "\n");
            }
            push_str(&mut combined, stderr);
        }
        assert(combined@ =~= combined_output(stdout@, stderr@));
        let cs = chars_of(combined.as_str());
        let truncated = if byte_len_exact(&cs) > 20000 {
            let cut: usize = if cs.len() < 20000 {
                cs.len()
            } else {
                20000
            };
            let mut s = string_from(&cs, 0, cut);
            push_str(&mut s, "\n…[truncated]");
            s
        } else {
            combined
        };
        let mut out = to_owned("exit=");
        let code: i32 = match exit_code {
            Some(c) => c,
            None => -1,
        };
        let ct = int_text_exec(code);
        push_str(&mut out, ct.as_str());
        push_str(&mut out, "\n");
        push_str(&mut out, truncated.as_str());
        out
    }
}

} // verus!
