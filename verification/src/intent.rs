//! Intent analysis: which stacks a prompt is about, what kind of task it
//! asks for, whether research is needed, and a short summary.
use vstd::prelude::*;

use crate::text::{
    ascii_lower, byte_len, byte_len_exact, chars_of, contains, fit_prefix, fit_prefix_exec, push_str,
    starts_with, str_ascii_lower, str_contains, str_eq, str_starts_with, str_trim, string_from,
    trim, is_ascii_alnum,
};

verus! {

/// A technology stack detected from the user message.
#[derive(Debug, Clone, Copy, PartialEq, Eq, Structural, PartialOrd, Ord, Hash)]
pub enum Stack {
    Flutter,
    React,
    Vue,
    Svelte,
    Node,
    Python,
    Rust,
    Go,
    Swift,
    Kotlin,
    Unknown,
}

/// Coarse task classification.
#[derive(Debug, Clone, Copy, PartialEq, Eq, Structural)]
pub enum TaskType {
    Build,
    Modify,
    Refactor,
    Debug,
    Explain,
    Test,
    Shell,
    Other,
}

impl Default for TaskType {
    fn default() -> (r: Self)
        ensures
            r == TaskType::Other,
    {
        TaskType::Other
    }
}

/// The display name of a stack.
pub open spec fn stack_name(s: Stack) -> Seq<char> {
    match s {
        Stack::Flutter => "Flutter"@,
        Stack::React => "React"@,
        Stack::Vue => "Vue"@,
        Stack::Svelte => "Svelte"@,
        Stack::Node => "Node.js"@,
        Stack::Python => "Python"@,
        Stack::Rust => "Rust"@,
        Stack::Go => "Go"@,
        Stack::Swift => "Swift"@,
        Stack::Kotlin => "Kotlin"@,
        Stack::Unknown => "Unknown"@,
    }
}

/// The stack a lower-case word names, if any.
pub open spec fn stack_for_word(t: Seq<char>) -> Option<Stack> {
    if t == "flutter"@ || t == "dart"@ {
        Some(Stack::Flutter)
    } else if t == "react"@ || t == "next"@ || t == "nextjs"@ || t == "next.js"@ {
        Some(Stack::React)
    } else if t == "vue"@ || t == "nuxt"@ {
        Some(Stack::Vue)
    } else if t == "svelte"@ || t == "sveltekit"@ {
        Some(Stack::Svelte)
    } else if t == "node"@ || t == "nodejs"@ || t == "node.js"@ || t == "deno"@ || t == "bun"@ || t
        == "ts"@ || t == "typescript"@ || t == "js"@ || t == "javascript"@ {
        Some(Stack::Node)
    } else if t == "python"@ || t == "py"@ || t == "django"@ || t == "flask"@ || t == "fastapi"@ {
        Some(Stack::Python)
    } else if t == "rust"@ || t == "rs"@ {
        Some(Stack::Rust)
    } else if t == "go"@ || t == "golang"@ {
        Some(Stack::Go)
    } else if t == "swift"@ || t == "ios"@ {
        Some(Stack::Swift)
    } else if t == "kotlin"@ || t == "android"@ {
        Some(Stack::Kotlin)
    } else {
        None
    }
}

impl Stack {
    /// Human-readable display name.
    pub fn display_name(self) -> (r: &'static str)
        ensures
            r@ == stack_name(self),
    {
        match self {
            Stack::Flutter => "Flutter",
            Stack::React => "React",
            Stack::Vue => "Vue",
            Stack::Svelte => "Svelte",
            Stack::Node => "Node.js",
            Stack::Python => "Python",
            Stack::Rust => "Rust",
            Stack::Go => "Go",
            Stack::Swift => "Swift",
            Stack::Kotlin => "Kotlin",
            Stack::Unknown => "Unknown",
        }
    }

    /// The stack a token names, compared case-insensitively (ASCII).
    pub fn detect(token: &str) -> (r: Option<Stack>)
        ensures
            r == stack_for_word(ascii_lower(token@)),
    {
        let t = str_ascii_lower(token);
        let t = t.as_str();
        if str_eq(t, "flutter") || str_eq(t, "dart") {
            Some(Stack::Flutter)
        } else if str_eq(t, "react") || str_eq(t, "next") || str_eq(t, "nextjs") || str_eq(
            t,
            "next.js",
        ) {
            Some(Stack::React)
        } else if str_eq(t, "vue") || str_eq(t, "nuxt") {
            Some(Stack::Vue)
        } else if str_eq(t, "svelte") || str_eq(t, "sveltekit") {
            Some(Stack::Svelte)
        } else if str_eq(t, "node") || str_eq(t, "nodejs") || str_eq(t, "node.js") || str_eq(
            t,
            "deno",
        ) || str_eq(t, "bun") || str_eq(t, "ts") || str_eq(t, "typescript") || str_eq(t, "js")
            || str_eq(t, "javascript") {
            Some(Stack::Node)
        } else if str_eq(t, "python") || str_eq(t, "py") || str_eq(t, "django") || str_eq(
            t,
            "flask",
        ) || str_eq(t, "fastapi") {
            Some(Stack::Python)
        } else if str_eq(t, "rust") || str_eq(t, "rs") {
            Some(Stack::Rust)
        } else if str_eq(t, "go") || str_eq(t, "golang") {
            Some(Stack::Go)
        } else if str_eq(t, "swift") || str_eq(t, "ios") {
            Some(Stack::Swift)
        } else if str_eq(t, "kotlin") || str_eq(t, "android") {
            Some(Stack::Kotlin)
        } else {
            None
        }
    }
}

/// A display name in lower case.
spec fn lower_name(s: Stack) -> Seq<char> {
    match s {
        Stack::Flutter => "flutter"@,
        Stack::React => "react"@,
        Stack::Vue => "vue"@,
        Stack::Svelte => "svelte"@,
        Stack::Node => "node.js"@,
        Stack::Python => "python"@,
        Stack::Rust => "rust"@,
        Stack::Go => "go"@,
        Stack::Swift => "swift"@,
        Stack::Kotlin => "kotlin"@,
        Stack::Unknown => "unknown"@,
    }
}

/// A display name lower-cased as `detect` does it.
proof fn lemma_name_lowered(s: Stack)
    ensures
        ascii_lower(stack_name(s)) == lower_name(s),
{
    match s {
        Stack::Flutter => {
            reveal_strlit("Flutter");
            reveal_strlit("flutter");
            assert(ascii_lower("Flutter"@) =~= "flutter"@);
        },
        Stack::React => {
            reveal_strlit("React");
            reveal_strlit("react");
            assert(ascii_lower("React"@) =~= "react"@);
        },
        Stack::Vue => {
            reveal_strlit("Vue");
            reveal_strlit("vue");
            assert(ascii_lower("Vue"@) =~= "vue"@);
        },
        Stack::Svelte => {
            reveal_strlit("Svelte");
            reveal_strlit("svelte");
            assert(ascii_lower("Svelte"@) =~= "svelte"@);
        },
        Stack::Node => {
            reveal_strlit("Node.js");
            reveal_strlit("node.js");
            assert(ascii_lower("Node.js"@) =~= "node.js"@);
        },
        Stack::Python => {
            reveal_strlit("Python");
            reveal_strlit("python");
            assert(ascii_lower("Python"@) =~= "python"@);
        },
        Stack::Rust => {
            reveal_strlit("Rust");
            reveal_strlit("rust");
            assert(ascii_lower("Rust"@) =~= "rust"@);
        },
        Stack::Go => {
            reveal_strlit("Go");
            reveal_strlit("go");
            assert(ascii_lower("Go"@) =~= "go"@);
        },
        Stack::Swift => {
            reveal_strlit("Swift");
            reveal_strlit("swift");
            assert(ascii_lower("Swift"@) =~= "swift"@);
        },
        Stack::Kotlin => {
            reveal_strlit("Kotlin");
            reveal_strlit("kotlin");
            assert(ascii_lower("Kotlin"@) =~= "kotlin"@);
        },
        Stack::Unknown => {
            reveal_strlit("Unknown");
            reveal_strlit("unknown");
            assert(ascii_lower("Unknown"@) =~= "unknown"@);
        },
    }
}

/// The lower-cased display names are the words the stacks are detected
/// by, and "unknown" is none of them.
proof fn lemma_lower_name_detected(s: Stack)
    ensures
        s != Stack::Unknown ==> stack_for_word(lower_name(s)) == Some(s),
        stack_for_word(lower_name(Stack::Unknown)) is None,
{
    lemma_unknown_not_detected();
    match s {
        Stack::Flutter => {
            reveal_strlit("flutter");
        },
        Stack::React => {
            reveal_strlit("dart");
            reveal_strlit("flutter");
            reveal_strlit("react");
            assert("react"@.len() != "flutter"@.len());
            assert("react"@.len() != "dart"@.len());
        },
        Stack::Vue => {
            reveal_strlit("dart");
            reveal_strlit("flutter");
            reveal_strlit("next");
            reveal_strlit("next.js");
            reveal_strlit("nextjs");
            reveal_strlit("react");
            reveal_strlit("vue");
            assert("vue"@.len() != "flutter"@.len());
            assert("vue"@.len() != "dart"@.len());
            assert("vue"@.len() != "react"@.len());
            assert("vue"@.len() != "next"@.len());
            assert("vue"@.len() != "nextjs"@.len());
            assert("vue"@.len() != "next.js"@.len());
        },
        Stack::Svelte => {
            reveal_strlit("dart");
            reveal_strlit("flutter");
            reveal_strlit("next");
            reveal_strlit("next.js");
            reveal_strlit("nextjs");
            reveal_strlit("nuxt");
            reveal_strlit("react");
            reveal_strlit("svelte");
            reveal_strlit("vue");
            assert("svelte"@.len() != "flutter"@.len());
            assert("svelte"@.len() != "dart"@.len());
            assert("svelte"@.len() != "react"@.len());
            assert("svelte"@.len() != "next"@.len());
            assert("svelte"@[0] != "nextjs"@[0]);
            assert("svelte"@.len() != "next.js"@.len());
            assert("svelte"@.len() != "vue"@.len());
            assert("svelte"@.len() != "nuxt"@.len());
        },
        Stack::Node => {
            reveal_strlit("dart");
            reveal_strlit("flutter");
            reveal_strlit("next");
            reveal_strlit("next.js");
            reveal_strlit("nextjs");
            reveal_strlit("node");
            reveal_strlit("node.js");
            reveal_strlit("nodejs");
            reveal_strlit("nuxt");
            reveal_strlit("react");
            reveal_strlit("svelte");
            reveal_strlit("sveltekit");
            reveal_strlit("vue");
            assert("node.js"@[0] != "flutter"@[0]);
            assert("node.js"@.len() != "dart"@.len());
            assert("node.js"@.len() != "react"@.len());
            assert("node.js"@.len() != "next"@.len());
            assert("node.js"@.len() != "nextjs"@.len());
            assert("node.js"@[1] != "next.js"@[1]);
            assert("node.js"@.len() != "vue"@.len());
            assert("node.js"@.len() != "nuxt"@.len());
            assert("node.js"@.len() != "svelte"@.len());
            assert("node.js"@.len() != "sveltekit"@.len());
            assert("node.js"@.len() != "node"@.len());
            assert("node.js"@.len() != "nodejs"@.len());
        },
        Stack::Python => {
            reveal_strlit("bun");
            reveal_strlit("dart");
            reveal_strlit("deno");
            reveal_strlit("flutter");
            reveal_strlit("javascript");
            reveal_strlit("js");
            reveal_strlit("next");
            reveal_strlit("next.js");
            reveal_strlit("nextjs");
            reveal_strlit("node");
            reveal_strlit("node.js");
            reveal_strlit("nodejs");
            reveal_strlit("nuxt");
            reveal_strlit("python");
            reveal_strlit("react");
            reveal_strlit("svelte");
            reveal_strlit("sveltekit");
            reveal_strlit("ts");
            reveal_strlit("typescript");
            reveal_strlit("vue");
            assert("python"@.len() != "flutter"@.len());
            assert("python"@.len() != "dart"@.len());
            assert("python"@.len() != "react"@.len());
            assert("python"@.len() != "next"@.len());
            assert("python"@[0] != "nextjs"@[0]);
            assert("python"@.len() != "next.js"@.len());
            assert("python"@.len() != "vue"@.len());
            assert("python"@.len() != "nuxt"@.len());
            assert("python"@[0] != "svelte"@[0]);
            assert("python"@.len() != "sveltekit"@.len());
            assert("python"@.len() != "node"@.len());
            assert("python"@[0] != "nodejs"@[0]);
            assert("python"@.len() != "node.js"@.len());
            assert("python"@.len() != "deno"@.len());
            assert("python"@.len() != "bun"@.len());
            assert("python"@.len() != "ts"@.len());
            assert("python"@.len() != "typescript"@.len());
            assert("python"@.len() != "js"@.len());
            assert("python"@.len() != "javascript"@.len());
        },
        Stack::Rust => {
            reveal_strlit("bun");
            reveal_strlit("dart");
            reveal_strlit("deno");
            reveal_strlit("django");
            reveal_strlit("fastapi");
            reveal_strlit("flask");
            reveal_strlit("flutter");
            reveal_strlit("javascript");
            reveal_strlit("js");
            reveal_strlit("next");
            reveal_strlit("next.js");
            reveal_strlit("nextjs");
            reveal_strlit("node");
            reveal_strlit("node.js");
            reveal_strlit("nodejs");
            reveal_strlit("nuxt");
            reveal_strlit("py");
            reveal_strlit("python");
            reveal_strlit("react");
            reveal_strlit("rust");
            reveal_strlit("svelte");
            reveal_strlit("sveltekit");
            reveal_strlit("ts");
            reveal_strlit("typescript");
            reveal_strlit("vue");
            assert("rust"@.len() != "flutter"@.len());
            assert("rust"@[0] != "dart"@[0]);
            assert("rust"@.len() != "react"@.len());
            assert("rust"@[0] != "next"@[0]);
            assert("rust"@.len() != "nextjs"@.len());
            assert("rust"@.len() != "next.js"@.len());
            assert("rust"@.len() != "vue"@.len());
            assert("rust"@[0] != "nuxt"@[0]);
            assert("rust"@.len() != "svelte"@.len());
            assert("rust"@.len() != "sveltekit"@.len());
            assert("rust"@[0] != "node"@[0]);
            assert("rust"@.len() != "nodejs"@.len());
            assert("rust"@.len() != "node.js"@.len());
            assert("rust"@[0] != "deno"@[0]);
            assert("rust"@.len() != "bun"@.len());
            assert("rust"@.len() != "ts"@.len());
            assert("rust"@.len() != "typescript"@.len());
            assert("rust"@.len() != "js"@.len());
            assert("rust"@.len() != "javascript"@.len());
            assert("rust"@.len() != "python"@.len());
            assert("rust"@.len() != "py"@.len());
            assert("rust"@.len() != "django"@.len());
            assert("rust"@.len() != "flask"@.len());
            assert("rust"@.len() != "fastapi"@.len());
        },
        Stack::Go => {
            reveal_strlit("bun");
            reveal_strlit("dart");
            reveal_strlit("deno");
            reveal_strlit("django");
            reveal_strlit("fastapi");
            reveal_strlit("flask");
            reveal_strlit("flutter");
            reveal_strlit("go");
            reveal_strlit("javascript");
            reveal_strlit("js");
            reveal_strlit("next");
            reveal_strlit("next.js");
            reveal_strlit("nextjs");
            reveal_strlit("node");
            reveal_strlit("node.js");
            reveal_strlit("nodejs");
            reveal_strlit("nuxt");
            reveal_strlit("py");
            reveal_strlit("python");
            reveal_strlit("react");
            reveal_strlit("rs");
            reveal_strlit("rust");
            reveal_strlit("svelte");
            reveal_strlit("sveltekit");
            reveal_strlit("ts");
            reveal_strlit("typescript");
            reveal_strlit("vue");
            assert("go"@.len() != "flutter"@.len());
            assert("go"@.len() != "dart"@.len());
            assert("go"@.len() != "react"@.len());
            assert("go"@.len() != "next"@.len());
            assert("go"@.len() != "nextjs"@.len());
            assert("go"@.len() != "next.js"@.len());
            assert("go"@.len() != "vue"@.len());
            assert("go"@.len() != "nuxt"@.len());
            assert("go"@.len() != "svelte"@.len());
            assert("go"@.len() != "sveltekit"@.len());
            assert("go"@.len() != "node"@.len());
            assert("go"@.len() != "nodejs"@.len());
            assert("go"@.len() != "node.js"@.len());
            assert("go"@.len() != "deno"@.len());
            assert("go"@.len() != "bun"@.len());
            assert("go"@[0] != "ts"@[0]);
            assert("go"@.len() != "typescript"@.len());
            assert("go"@[0] != "js"@[0]);
            assert("go"@.len() != "javascript"@.len());
            assert("go"@.len() != "python"@.len());
            assert("go"@[0] != "py"@[0]);
            assert("go"@.len() != "django"@.len());
            assert("go"@.len() != "flask"@.len());
            assert("go"@.len() != "fastapi"@.len());
            assert("go"@.len() != "rust"@.len());
            assert("go"@[0] != "rs"@[0]);
        },
        Stack::Swift => {
            reveal_strlit("bun");
            reveal_strlit("dart");
            reveal_strlit("deno");
            reveal_strlit("django");
            reveal_strlit("fastapi");
            reveal_strlit("flask");
            reveal_strlit("flutter");
            reveal_strlit("go");
            reveal_strlit("golang");
            reveal_strlit("javascript");
            reveal_strlit("js");
            reveal_strlit("next");
            reveal_strlit("next.js");
            reveal_strlit("nextjs");
            reveal_strlit("node");
            reveal_strlit("node.js");
            reveal_strlit("nodejs");
            reveal_strlit("nuxt");
            reveal_strlit("py");
            reveal_strlit("python");
            reveal_strlit("react");
            reveal_strlit("rs");
            reveal_strlit("rust");
            reveal_strlit("svelte");
            reveal_strlit("sveltekit");
            reveal_strlit("swift");
            reveal_strlit("ts");
            reveal_strlit("typescript");
            reveal_strlit("vue");
            assert("swift"@.len() != "flutter"@.len());
            assert("swift"@.len() != "dart"@.len());
            assert("swift"@[0] != "react"@[0]);
            assert("swift"@.len() != "next"@.len());
            assert("swift"@.len() != "nextjs"@.len());
            assert("swift"@.len() != "next.js"@.len());
            assert("swift"@.len() != "vue"@.len());
            assert("swift"@.len() != "nuxt"@.len());
            assert("swift"@.len() != "svelte"@.len());
            assert("swift"@.len() != "sveltekit"@.len());
            assert("swift"@.len() != "node"@.len());
            assert("swift"@.len() != "nodejs"@.len());
            assert("swift"@.len() != "node.js"@.len());
            assert("swift"@.len() != "deno"@.len());
            assert("swift"@.len() != "bun"@.len());
            assert("swift"@.len() != "ts"@.len());
            assert("swift"@.len() != "typescript"@.len());
            assert("swift"@.len() != "js"@.len());
            assert("swift"@.len() != "javascript"@.len());
            assert("swift"@.len() != "python"@.len());
            assert("swift"@.len() != "py"@.len());
            assert("swift"@.len() != "django"@.len());
            assert("swift"@[0] != "flask"@[0]);
            assert("swift"@.len() != "fastapi"@.len());
            assert("swift"@.len() != "rust"@.len());
            assert("swift"@.len() != "rs"@.len());
            assert("swift"@.len() != "go"@.len());
            assert("swift"@.len() != "golang"@.len());
        },
        Stack::Kotlin => {
            reveal_strlit("bun");
            reveal_strlit("dart");
            reveal_strlit("deno");
            reveal_strlit("django");
            reveal_strlit("fastapi");
            reveal_strlit("flask");
            reveal_strlit("flutter");
            reveal_strlit("go");
            reveal_strlit("golang");
            reveal_strlit("ios");
            reveal_strlit("javascript");
            reveal_strlit("js");
            reveal_strlit("kotlin");
            reveal_strlit("next");
            reveal_strlit("next.js");
            reveal_strlit("nextjs");
            reveal_strlit("node");
            reveal_strlit("node.js");
            reveal_strlit("nodejs");
            reveal_strlit("nuxt");
            reveal_strlit("py");
            reveal_strlit("python");
            reveal_strlit("react");
            reveal_strlit("rs");
            reveal_strlit("rust");
            reveal_strlit("svelte");
            reveal_strlit("sveltekit");
            reveal_strlit("swift");
            reveal_strlit("ts");
            reveal_strlit("typescript");
            reveal_strlit("vue");
            assert("kotlin"@.len() != "flutter"@.len());
            assert("kotlin"@.len() != "dart"@.len());
            assert("kotlin"@.len() != "react"@.len());
            assert("kotlin"@.len() != "next"@.len());
            assert("kotlin"@[0] != "nextjs"@[0]);
            assert("kotlin"@.len() != "next.js"@.len());
            assert("kotlin"@.len() != "vue"@.len());
            assert("kotlin"@.len() != "nuxt"@.len());
            assert("kotlin"@[0] != "svelte"@[0]);
            assert("kotlin"@.len() != "sveltekit"@.len());
            assert("kotlin"@.len() != "node"@.len());
            assert("kotlin"@[0] != "nodejs"@[0]);
            assert("kotlin"@.len() != "node.js"@.len());
            assert("kotlin"@.len() != "deno"@.len());
            assert("kotlin"@.len() != "bun"@.len());
            assert("kotlin"@.len() != "ts"@.len());
            assert("kotlin"@.len() != "typescript"@.len());
            assert("kotlin"@.len() != "js"@.len());
            assert("kotlin"@.len() != "javascript"@.len());
            assert("kotlin"@[0] != "python"@[0]);
            assert("kotlin"@.len() != "py"@.len());
            assert("kotlin"@[0] != "django"@[0]);
            assert("kotlin"@.len() != "flask"@.len());
            assert("kotlin"@.len() != "fastapi"@.len());
            assert("kotlin"@.len() != "rust"@.len());
            assert("kotlin"@.len() != "rs"@.len());
            assert("kotlin"@.len() != "go"@.len());
            assert("kotlin"@[0] != "golang"@[0]);
            assert("kotlin"@.len() != "swift"@.len());
            assert("kotlin"@.len() != "ios"@.len());
        },
        Stack::Unknown => {},
    }
}

/// "unknown" is none of the words a stack is detected by.
proof fn lemma_unknown_not_detected()
    ensures
        stack_for_word(lower_name(Stack::Unknown)) is None,
{
    reveal_strlit("android");
    reveal_strlit("bun");
    reveal_strlit("dart");
    reveal_strlit("deno");
    reveal_strlit("django");
    reveal_strlit("fastapi");
    reveal_strlit("flask");
    reveal_strlit("flutter");
    reveal_strlit("go");
    reveal_strlit("golang");
    reveal_strlit("ios");
    reveal_strlit("javascript");
    reveal_strlit("js");
    reveal_strlit("kotlin");
    reveal_strlit("next");
    reveal_strlit("next.js");
    reveal_strlit("nextjs");
    reveal_strlit("node");
    reveal_strlit("node.js");
    reveal_strlit("nodejs");
    reveal_strlit("nuxt");
    reveal_strlit("py");
    reveal_strlit("python");
    reveal_strlit("react");
    reveal_strlit("rs");
    reveal_strlit("rust");
    reveal_strlit("svelte");
    reveal_strlit("sveltekit");
    reveal_strlit("swift");
    reveal_strlit("ts");
    reveal_strlit("typescript");
    reveal_strlit("unknown");
    reveal_strlit("vue");
    assert("unknown"@[0] != "flutter"@[0]);
    assert("unknown"@.len() != "dart"@.len());
    assert("unknown"@.len() != "react"@.len());
    assert("unknown"@.len() != "next"@.len());
    assert("unknown"@.len() != "nextjs"@.len());
    assert("unknown"@[0] != "next.js"@[0]);
    assert("unknown"@.len() != "vue"@.len());
    assert("unknown"@.len() != "nuxt"@.len());
    assert("unknown"@.len() != "svelte"@.len());
    assert("unknown"@.len() != "sveltekit"@.len());
    assert("unknown"@.len() != "node"@.len());
    assert("unknown"@.len() != "nodejs"@.len());
    assert("unknown"@[0] != "node.js"@[0]);
    assert("unknown"@.len() != "deno"@.len());
    assert("unknown"@.len() != "bun"@.len());
    assert("unknown"@.len() != "ts"@.len());
    assert("unknown"@.len() != "typescript"@.len());
    assert("unknown"@.len() != "js"@.len());
    assert("unknown"@.len() != "javascript"@.len());
    assert("unknown"@.len() != "python"@.len());
    assert("unknown"@.len() != "py"@.len());
    assert("unknown"@.len() != "django"@.len());
    assert("unknown"@.len() != "flask"@.len());
    assert("unknown"@[0] != "fastapi"@[0]);
    assert("unknown"@.len() != "rust"@.len());
    assert("unknown"@.len() != "rs"@.len());
    assert("unknown"@.len() != "go"@.len());
    assert("unknown"@.len() != "golang"@.len());
    assert("unknown"@.len() != "swift"@.len());
    assert("unknown"@.len() != "ios"@.len());
    assert("unknown"@.len() != "kotlin"@.len());
    assert("unknown"@[0] != "android"@[0]);
}

/// No two stacks share a display name.
proof fn lemma_names_distinct(s: Stack, t: Stack)
    ensures
        stack_name(s) == stack_name(t) ==> s == t,
{
    reveal_strlit("Flutter");
    reveal_strlit("React");
    reveal_strlit("Vue");
    reveal_strlit("Svelte");
    reveal_strlit("Node.js");
    reveal_strlit("Python");
    reveal_strlit("Rust");
    reveal_strlit("Go");
    reveal_strlit("Swift");
    reveal_strlit("Kotlin");
    reveal_strlit("Unknown");
    assert("Flutter"@.len() != "React"@.len());
    assert("Flutter"@.len() != "Vue"@.len());
    assert("Flutter"@.len() != "Svelte"@.len());
    assert("Flutter"@[0] != "Node.js"@[0]);
    assert("Flutter"@.len() != "Python"@.len());
    assert("Flutter"@.len() != "Rust"@.len());
    assert("Flutter"@.len() != "Go"@.len());
    assert("Flutter"@.len() != "Swift"@.len());
    assert("Flutter"@.len() != "Kotlin"@.len());
    assert("Flutter"@[0] != "Unknown"@[0]);
    assert("React"@.len() != "Vue"@.len());
    assert("React"@.len() != "Svelte"@.len());
    assert("React"@.len() != "Node.js"@.len());
    assert("React"@.len() != "Python"@.len());
    assert("React"@.len() != "Rust"@.len());
    assert("React"@.len() != "Go"@.len());
    assert("React"@[0] != "Swift"@[0]);
    assert("React"@.len() != "Kotlin"@.len());
    assert("React"@.len() != "Unknown"@.len());
    assert("Vue"@.len() != "Svelte"@.len());
    assert("Vue"@.len() != "Node.js"@.len());
    assert("Vue"@.len() != "Python"@.len());
    assert("Vue"@.len() != "Rust"@.len());
    assert("Vue"@.len() != "Go"@.len());
    assert("Vue"@.len() != "Swift"@.len());
    assert("Vue"@.len() != "Kotlin"@.len());
    assert("Vue"@.len() != "Unknown"@.len());
    assert("Svelte"@.len() != "Node.js"@.len());
    assert("Svelte"@[0] != "Python"@[0]);
    assert("Svelte"@.len() != "Rust"@.len());
    assert("Svelte"@.len() != "Go"@.len());
    assert("Svelte"@.len() != "Swift"@.len());
    assert("Svelte"@[0] != "Kotlin"@[0]);
    assert("Svelte"@.len() != "Unknown"@.len());
    assert("Node.js"@.len() != "Python"@.len());
    assert("Node.js"@.len() != "Rust"@.len());
    assert("Node.js"@.len() != "Go"@.len());
    assert("Node.js"@.len() != "Swift"@.len());
    assert("Node.js"@.len() != "Kotlin"@.len());
    assert("Node.js"@[0] != "Unknown"@[0]);
    assert("Python"@.len() != "Rust"@.len());
    assert("Python"@.len() != "Go"@.len());
    assert("Python"@.len() != "Swift"@.len());
    assert("Python"@[0] != "Kotlin"@[0]);
    assert("Python"@.len() != "Unknown"@.len());
    assert("Rust"@.len() != "Go"@.len());
    assert("Rust"@.len() != "Swift"@.len());
    assert("Rust"@.len() != "Kotlin"@.len());
    assert("Rust"@.len() != "Unknown"@.len());
    assert("Go"@.len() != "Swift"@.len());
    assert("Go"@.len() != "Kotlin"@.len());
    assert("Go"@.len() != "Unknown"@.len());
    assert("Swift"@.len() != "Kotlin"@.len());
    assert("Swift"@.len() != "Unknown"@.len());
    assert("Kotlin"@.len() != "Unknown"@.len());
}

/// Detecting a stack from its own display name gives the stack back;
/// "Unknown" names no stack; and no two stacks share a display name.
pub proof fn lemma_detect_display_name(s: Stack, t: Stack)
    ensures
        s != Stack::Unknown ==> stack_for_word(ascii_lower(stack_name(s))) == Some(s),
        stack_for_word(ascii_lower(stack_name(Stack::Unknown))) is None,
        stack_name(s) == stack_name(t) ==> s == t,
{
    lemma_name_lowered(s);
    lemma_name_lowered(Stack::Unknown);
    lemma_lower_name_detected(s);
    lemma_names_distinct(s, t);
}

/// A request to restructure code: it starts with "refactor" or has the
/// word "refactor" inside.
pub open spec fn asks_refactor(lower: Seq<char>) -> bool {
    starts_with(lower, "refactor"@) || contains(lower, " refactor "@)
}

/// A report of something broken: it starts with "fix", or mentions an
/// error, a bug, something not working or that doesn't work.
pub open spec fn reports_breakage(lower: Seq<char>) -> bool {
    starts_with(lower, "fix"@) || contains(lower, " error "@) || contains(lower, " bug "@) || contains(
        lower,
        " not working"@,
    ) || contains(lower, "doesn't work"@)
}

/// A question about code: it starts with "explain", "what does" or
/// "how does".
pub open spec fn asks_explanation(lower: Seq<char>) -> bool {
    starts_with(lower, "explain"@) || starts_with(lower, "what does"@) || starts_with(lower, "how does"@)
}

/// A request for tests.
pub open spec fn asks_tests(lower: Seq<char>) -> bool {
    contains(lower, "write a test"@) || contains(lower, "add tests"@) || contains(lower, "unit test"@)
}

/// A request to run a command.
pub open spec fn asks_command(lower: Seq<char>) -> bool {
    starts_with(lower, "run "@) || starts_with(lower, "execute "@) || contains(lower, "git "@)
}

/// A request to change existing code.
pub open spec fn asks_change(lower: Seq<char>) -> bool {
    starts_with(lower, "modify "@) || starts_with(lower, "update "@) || starts_with(lower, "change "@)
        || starts_with(lower, "edit "@)
}

/// How a lower-cased request is classified, the first kind that applies
/// deciding: a refactoring, then a report of breakage (Debug), a question
/// (Explain), a request for tests, for a command (Shell), for a change
/// (Modify); anything else is a request to build.
pub proof fn lemma_task_type_by_keywords(lower: Seq<char>)
    ensures
        asks_refactor(lower) ==> task_type_of(lower) == TaskType::Refactor,
        !asks_refactor(lower) && reports_breakage(lower) ==> task_type_of(lower) == TaskType::Debug,
        !asks_refactor(lower) && !reports_breakage(lower) && asks_explanation(lower) ==> task_type_of(lower)
            == TaskType::Explain,
        !asks_refactor(lower) && !reports_breakage(lower) && !asks_explanation(lower) && asks_tests(lower)
            ==> task_type_of(lower) == TaskType::Test,
        !asks_refactor(lower) && !reports_breakage(lower) && !asks_explanation(lower) && !asks_tests(lower)
            && asks_command(lower) ==> task_type_of(lower) == TaskType::Shell,
        !asks_refactor(lower) && !reports_breakage(lower) && !asks_explanation(lower) && !asks_tests(lower)
            && !asks_command(lower) && asks_change(lower) ==> task_type_of(lower) == TaskType::Modify,
        !asks_refactor(lower) && !reports_breakage(lower) && !asks_explanation(lower) && !asks_tests(lower)
            && !asks_command(lower) && !asks_change(lower) ==> task_type_of(lower) == TaskType::Build,
{
}

/// The task type of a lower-cased prompt.
pub open spec fn task_type_of(lower: Seq<char>) -> TaskType {
    if starts_with(lower, "refactor"@) || contains(lower, " refactor "@) {
        TaskType::Refactor
    } else if starts_with(lower, "fix"@) || contains(lower, " error "@) || contains(lower, " bug "@)
        || contains(lower, " not working"@) || contains(lower, "doesn't work"@) {
        TaskType::Debug
    } else if starts_with(lower, "explain"@) || starts_with(lower, "what does"@) || starts_with(
        lower,
        "how does"@,
    ) {
        TaskType::Explain
    } else if contains(lower, "write a test"@) || contains(lower, "add tests"@) || contains(
        lower,
        "unit test"@,
    ) {
        TaskType::Test
    } else if starts_with(lower, "run "@) || starts_with(lower, "execute "@) || contains(
        lower,
        "git "@,
    ) {
        TaskType::Shell
    } else if starts_with(lower, "modify "@) || starts_with(lower, "update "@) || starts_with(
        lower,
        "change "@,
    ) || starts_with(lower, "edit "@) {
        TaskType::Modify
    } else {
        TaskType::Build
    }
}

/// Classify a lower-cased prompt by keyword.
pub fn classify_task(lower: &str) -> (r: TaskType)
    ensures
        r == task_type_of(lower@),
{
    if str_starts_with(lower, "refactor") || str_contains(lower, " refactor ") {
        TaskType::Refactor
    } else if str_starts_with(lower, "fix") || str_contains(lower, " error ") || str_contains(
        lower,
        " bug ",
    ) || str_contains(lower, " not working") || str_contains(lower, "doesn't work") {
        TaskType::Debug
    } else if str_starts_with(lower, "explain") || str_starts_with(lower, "what does")
        || str_starts_with(lower, "how does") {
        TaskType::Explain
    } else if str_contains(lower, "write a test") || str_contains(lower, "add tests")
        || str_contains(lower, "unit test") {
        TaskType::Test
    } else if str_starts_with(lower, "run ") || str_starts_with(lower, "execute ") || str_contains(
        lower,
        "git ",
    ) {
        TaskType::Shell
    } else if str_starts_with(lower, "modify ") || str_starts_with(lower, "update ")
        || str_starts_with(lower, "change ") || str_starts_with(lower, "edit ") {
        TaskType::Modify
    } else {
        TaskType::Build
    }
}

/// Whether a lower-cased prompt about the given stacks calls for research.
pub open spec fn research_needed(lower: Seq<char>, stacks: Seq<Stack>) -> bool {
    ||| contains(lower, "latest"@)
    ||| contains(lower, "current"@)
    ||| contains(lower, "best practice"@)
    ||| contains(lower, "package"@)
    ||| contains(lower, "library"@)
    ||| contains(lower, "api"@)
    ||| contains(lower, "deprecated"@)
    ||| exists|i: int| 0 <= i < stacks.len() && stacks[i] != Stack::Unknown
}

/// Whether external research is needed: the prompt asks for something
/// current, names a package, library or API, mentions deprecation, or
/// names a known stack.
pub fn needs_research(lower: &str, stacks: &[Stack]) -> (r: bool)
    ensures
        r == research_needed(lower@, stacks@),
{
    if str_contains(lower, "latest") || str_contains(lower, "current") || str_contains(
        lower,
        "best practice",
    ) {
        return true;
    }
    if str_contains(lower, "package") || str_contains(lower, "library") || str_contains(
        lower,
        "api",
    ) {
        return true;
    }
    if str_contains(lower, "deprecated") {
        return true;
    }
    let mut i: usize = 0;
    while i < stacks.len()
        invariant
            i <= stacks.len(),
            forall|j: int| 0 <= j < i ==> stacks@[j] == Stack::Unknown,
        decreases stacks.len() - i,
    {
        if stacks[i] != Stack::Unknown {
            return true;
        }
        i += 1;
    }
    false
}

/// The summary of a prompt: trimmed, and if longer than 120 UTF-8 bytes,
/// cut to the longest whole-character prefix of at most 120 bytes
/// followed by an ellipsis.
pub open spec fn summary_of(prompt: Seq<char>) -> Seq<char> {
    let t = trim(prompt);
    if byte_len(t) <= 120 {
        t
    } else {
        t.take(fit_prefix(t, 120) as int) + "…"@
    }
}

/// A short, human-readable summary of a prompt.
pub fn summarize(prompt: &str) -> (r: String)
    ensures
        r@ == summary_of(prompt@),
{
    let trimmed = str_trim(prompt);
    let t = trimmed.as_str();
    let cs = chars_of(t);
    if byte_len_exact(&cs) <= 120 {
        trimmed
    } else {
        let k = fit_prefix_exec(&cs, 120);
        let mut out = string_from(&cs, 0, k);
        push_str(&mut out, "…");
        proof {
            assert(cs@.subrange(0, k as int) =~= trim(prompt@).take(k as int));
        }
        out
    }
}

/// A character that belongs to a word: an ASCII letter or digit, or `.`.
pub open spec fn is_word_char(c: char) -> bool {
    is_ascii_alnum(c) || c == '.'
}

/// The number of word characters `t` starts with.
pub open spec fn word_len(t: Seq<char>) -> nat
    decreases t.len(),
{
    if t.len() == 0 || !is_word_char(t[0]) {
        0
    } else {
        1 + word_len(t.skip(1))
    }
}

/// Whether a word starts at `a`.
pub open spec fn word_start(s: Seq<char>, a: int) -> bool {
    0 <= a < s.len() && is_word_char(s[a]) && (a == 0 || !is_word_char(s[a - 1]))
}

/// The word that starts at `a`.
pub open spec fn word_at(s: Seq<char>, a: int) -> Seq<char> {
    s.subrange(a, a + word_len(s.skip(a)))
}

/// Whether some word of `s` names the stack `st`.
pub open spec fn names_stack(s: Seq<char>, st: Stack) -> bool {
    exists|a: int| word_start(s, a) && stack_for_word(ascii_lower(word_at(s, a))) == Some(st)
}

/// The stacks that words can name, in their order.
pub open spec fn nameable_stacks() -> Seq<Stack> {
    seq![
        Stack::Flutter,
        Stack::React,
        Stack::Vue,
        Stack::Svelte,
        Stack::Node,
        Stack::Python,
        Stack::Rust,
        Stack::Go,
        Stack::Swift,
        Stack::Kotlin,
    ]
}

/// The stacks of `list` that words of `s` name, in the order of `list`.
pub open spec fn named_among(s: Seq<char>, list: Seq<Stack>) -> Seq<Stack>
    decreases list.len(),
{
    if list.len() == 0 {
        seq![]
    } else {
        let rest = named_among(s, list.drop_last());
        if names_stack(s, list.last()) {
            rest.push(list.last())
        } else {
            rest
        }
    }
}

/// The stacks a prompt mentions, each once, in stack order; `Unknown`
/// alone when it mentions none.
pub open spec fn stacks_in(s: Seq<char>) -> Seq<Stack> {
    let found = named_among(s, nameable_stacks());
    if found.len() == 0 {
        seq![Stack::Unknown]
    } else {
        found
    }
}

/// The position of a nameable stack in `nameable_stacks`.
fn stack_index(st: Stack) -> (k: usize)
    requires
        st != Stack::Unknown,
    ensures
        k < 10,
        nameable_stacks()[k as int] == st,
        k == stack_pos(st),
{
    match st {
        Stack::Flutter => 0,
        Stack::React => 1,
        Stack::Vue => 2,
        Stack::Svelte => 3,
        Stack::Node => 4,
        Stack::Python => 5,
        Stack::Rust => 6,
        Stack::Go => 7,
        Stack::Swift => 8,
        Stack::Kotlin => 9,
        Stack::Unknown => 0,
    }
}

/// The position of a stack in `nameable_stacks`.
pub open spec fn stack_pos(st: Stack) -> int {
    match st {
        Stack::Flutter => 0,
        Stack::React => 1,
        Stack::Vue => 2,
        Stack::Svelte => 3,
        Stack::Node => 4,
        Stack::Python => 5,
        Stack::Rust => 6,
        Stack::Go => 7,
        Stack::Swift => 8,
        Stack::Kotlin => 9,
        Stack::Unknown => 10,
    }
}

/// Each nameable stack sits at its position.
proof fn lemma_stack_pos()
    ensures
        forall|m: int| 0 <= m < 10 ==> #[trigger] stack_pos(nameable_stacks()[m]) == m,
{
    let l = nameable_stacks();
    assert(l[0] == Stack::Flutter && l[1] == Stack::React && l[2] == Stack::Vue && l[3] == Stack::Svelte
        && l[4] == Stack::Node && l[5] == Stack::Python && l[6] == Stack::Rust && l[7] == Stack::Go
        && l[8] == Stack::Swift && l[9] == Stack::Kotlin);
}

/// Whether a character belongs to a word, computed.
fn is_word_char_exec(c: char) -> (r: bool)
    ensures
        r == is_word_char(c),
{
    ('a' <= c && c <= 'z') || ('A' <= c && c <= 'Z') || ('0' <= c && c <= '9') || c == '.'
}

/// `word_len` is the distance to the first non-word character.
proof fn lemma_word_len_is(t: Seq<char>, k: int)
    requires
        0 <= k <= t.len(),
        k < t.len() ==> !is_word_char(t[k]),
        forall|j: int| 0 <= j < k ==> is_word_char(t[j]),
    ensures
        word_len(t) == k,
    decreases k,
{
    if k > 0 {
        assert forall|j: int| 0 <= j < k - 1 implies is_word_char(t.skip(1)[j]) by {
            assert(t.skip(1)[j] == t[j + 1]);
        }
        if k < t.len() {
            assert(t.skip(1)[k - 1] == t[k]);
        }
        lemma_word_len_is(t.skip(1), k - 1);
    }
}

/// No stack is named by a word the detector rejects.
proof fn lemma_unknown_never_named(s: Seq<char>)
    ensures
        !names_stack(s, Stack::Unknown),
{
    if names_stack(s, Stack::Unknown) {
        let a = choose|a: int| word_start(s, a) && stack_for_word(ascii_lower(word_at(s, a))) == Some(Stack::Unknown);
    }
}

/// The stacks a lower-cased prompt mentions: each stack that one of its
/// words (runs of ASCII letters, digits and dots) names, once, in stack
/// order; `Unknown` alone when there is none.
pub fn detect_stacks(lower: &str) -> (r: Vec<Stack>)
    ensures
        r@ == stacks_in(lower@),
{
    let cs = chars_of(lower);
    let n = cs.len();
    let mut seen: Vec<bool> = vec![false, false, false, false, false, false, false, false, false, false];
    let mut i: usize = 0;
    while i < n
        invariant
            i <= n == cs@.len(),
            cs@ == lower@,
            seen@.len() == 10,
            forall|k: int|
                0 <= k < 10 ==> (#[trigger] seen@[k] <==> exists|a: int|
                    0 <= a < i && word_start(lower@, a) && stack_for_word(
                        ascii_lower(word_at(lower@, a)),
                    ) == Some(nameable_stacks()[k])),
        decreases n - i,
    {
        let starts = is_word_char_exec(cs[i]) && (i == 0 || !is_word_char_exec(cs[i - 1]));
        assert(starts == word_start(lower@, i as int));
        let ghost found: Option<Stack> = if starts {
            stack_for_word(ascii_lower(word_at(lower@, i as int)))
        } else {
            None
        };
        let ghost old_seen = seen@;
        if starts {
            let mut j = i;
            while j < n && is_word_char_exec(cs[j])
                invariant
                    i <= j <= n == cs@.len(),
                    forall|m: int| i <= m < j ==> is_word_char(cs@[m]),
                decreases n - j,
            {
                j += 1;
            }
            proof {
                let t = cs@.skip(i as int);
                assert forall|m: int| 0 <= m < j - i implies is_word_char(t[m]) by {
                    assert(t[m] == cs@[i + m]);
                }
                if j < n {
                    assert(t[j - i] == cs@[j as int]);
                }
                lemma_word_len_is(t, j - i);
            }
            let w = string_from(&cs, i, j);
            assert(w@ == word_at(lower@, i as int));
            match Stack::detect(w.as_str()) {
                Some(st) => {
                    proof {
                        if st == Stack::Unknown {
                            assert(names_stack(lower@, Stack::Unknown));
                            lemma_unknown_never_named(lower@);
                        }
                    }
                    let k = stack_index(st);
                    seen.set(k, true);
                    proof {
                        lemma_stack_pos();
                        assert forall|m: int| 0 <= m < 10 implies #[trigger] seen@[m] == (old_seen[m] || found == Some(nameable_stacks()[m])) by {
                            if nameable_stacks()[m] == st {
                                assert(stack_pos(nameable_stacks()[m]) == m);
                            }
                        }
                    }
                },
                None => {},
            }
        }
        assert(forall|m: int| 0 <= m < 10 ==> #[trigger] seen@[m] == (old_seen[m] || found == Some(nameable_stacks()[m])));
        proof {
            assert forall|k: int| 0 <= k < 10 implies (#[trigger] seen@[k] <==> exists|a: int|
                0 <= a < i + 1 && word_start(lower@, a) && stack_for_word(
                    ascii_lower(word_at(lower@, a)),
                ) == Some(nameable_stacks()[k])) by {
                let st = nameable_stacks()[k];
                if exists|a: int|
                    0 <= a < i + 1 && word_start(lower@, a) && stack_for_word(
                        ascii_lower(word_at(lower@, a)),
                    ) == Some(st) {
                    let a = choose|a: int|
                        0 <= a < i + 1 && word_start(lower@, a) && stack_for_word(
                            ascii_lower(word_at(lower@, a)),
                        ) == Some(st);
                    if a < i {
                        assert(old_seen[k]);
                    } else {
                        assert(found == Some(st));
                    }
                }
                if old_seen[k] {
                    let a = choose|a: int|
                        0 <= a < i && word_start(lower@, a) && stack_for_word(
                            ascii_lower(word_at(lower@, a)),
                        ) == Some(st);
                    assert(0 <= a < i + 1);
                }
                if found == Some(st) {
                    assert(word_start(lower@, i as int));
                }
            }
        }
        i += 1;
    }
    proof {
        assert forall|m: int| 0 <= m < 10 implies (#[trigger] seen@[m] <==> names_stack(
            lower@,
            nameable_stacks()[m],
        )) by {
            let st = nameable_stacks()[m];
            if names_stack(lower@, st) {
                let a = choose|a: int| word_start(lower@, a) && stack_for_word(ascii_lower(word_at(lower@, a))) == Some(st);
                assert(0 <= a < n);
            }
        }
    }
    let mut out: Vec<Stack> = Vec::new();
    let all = [
        Stack::Flutter,
        Stack::React,
        Stack::Vue,
        Stack::Svelte,
        Stack::Node,
        Stack::Python,
        Stack::Rust,
        Stack::Go,
        Stack::Swift,
        Stack::Kotlin,
    ];
    assert(all@ =~= nameable_stacks());
    let mut k: usize = 0;
    while k < 10
        invariant
            k <= 10,
            all@ == nameable_stacks(),
            seen@.len() == 10,
            forall|m: int| 0 <= m < 10 ==> (#[trigger] seen@[m] <==> names_stack(lower@, nameable_stacks()[m])),
            out@ == named_among(lower@, nameable_stacks().take(k as int)),
        decreases 10 - k,
    {
        proof {
            assert(nameable_stacks().take(k + 1).drop_last() =~= nameable_stacks().take(k as int));
            assert(nameable_stacks().take(k + 1).last() == nameable_stacks()[k as int]);
        }
        if seen[k] {
            out.push(all[k]);
        }
        k += 1;
    }
    assert(nameable_stacks().take(10) =~= nameable_stacks());
    if out.len() == 0 {
        out.push(Stack::Unknown);
        assert(out@ =~= seq![Stack::Unknown]);
    }
    out
}

/// The stacks found among the first `k` nameable ones come in strictly
/// increasing position, all below `k`.
proof fn lemma_named_among_sorted(s: Seq<char>, k: int)
    requires
        0 <= k <= 10,
    ensures
        forall|i: int|
            0 <= i < named_among(s, nameable_stacks().take(k)).len() ==> 0 <= #[trigger] stack_pos(
                named_among(s, nameable_stacks().take(k))[i],
            ) < k,
        forall|i: int, j: int|
            0 <= i < j < named_among(s, nameable_stacks().take(k)).len() ==> stack_pos(
                #[trigger] named_among(s, nameable_stacks().take(k))[i],
            ) < stack_pos(#[trigger] named_among(s, nameable_stacks().take(k))[j]),
    decreases k,
{
    if k > 0 {
        lemma_named_among_sorted(s, k - 1);
        lemma_stack_pos();
        assert(nameable_stacks().take(k).drop_last() =~= nameable_stacks().take(k - 1));
        assert(nameable_stacks().take(k).last() == nameable_stacks()[k - 1]);
        let x = nameable_stacks()[k - 1];
        assert(stack_pos(x) == k - 1);
        let r = named_among(s, nameable_stacks().take(k));
        let r1 = named_among(s, nameable_stacks().take(k - 1));
        if names_stack(s, x) {
            assert(r == r1.push(x));
            assert forall|i: int| 0 <= i < r.len() implies 0 <= #[trigger] stack_pos(r[i]) < k by {
                if i < r1.len() {
                    assert(r[i] == r1[i]);
                }
            }
            assert forall|i: int, j: int| 0 <= i < j < r.len() implies stack_pos(#[trigger] r[i]) < stack_pos(#[trigger] r[j]) by {
                assert(r[i] == r1[i]);
                if j < r1.len() {
                    assert(r[j] == r1[j]);
                }
            }
        } else {
            assert(r == r1);
        }
    } else {
        assert(nameable_stacks().take(0) =~= Seq::<Stack>::empty());
    }
}

/// The stacks of a prompt are never empty, and come sorted in stack
/// order without repeats; `Unknown` appears only alone.
pub proof fn lemma_stacks_sorted_unique(s: Seq<char>)
    ensures
        stacks_in(s).len() >= 1,
        forall|i: int, j: int|
            0 <= i < j < stacks_in(s).len() ==> stack_pos(#[trigger] stacks_in(s)[i]) < stack_pos(
                #[trigger] stacks_in(s)[j],
            ),
        forall|i: int|
            0 <= i < stacks_in(s).len() && #[trigger] stacks_in(s)[i] == Stack::Unknown ==> stacks_in(
                s,
            ).len() == 1,
{
    lemma_named_among_sorted(s, 10);
    assert(nameable_stacks().take(10) =~= nameable_stacks());
    let found = named_among(s, nameable_stacks());
    assert forall|i: int| 0 <= i < found.len() implies #[trigger] found[i] != Stack::Unknown by {
        assert(stack_pos(found[i]) < 10);
    }
}


/// What a request asks for, as far as its words tell: the stacks it
/// names, the kind of task, whether research is needed, and a summary.
#[derive(Debug, Clone)]
pub struct Intent {
    pub stacks: Vec<Stack>,
    pub task_type: TaskType,
    pub needs_research: bool,
    pub summary: String,
}

impl Intent {
    /// Whether any stack was detected.
    pub fn has_stacks(&self) -> (r: bool)
        ensures
            r == (self.stacks@.len() > 0),
    {
        self.stacks.len() > 0
    }
}

/// Analyze a request: its stacks and task type are read from its ASCII
/// lower-cased text, research is needed as that text and the stacks say,
/// and the summary is taken from the request as written.
pub fn analyze(prompt: &str) -> (r: Intent)
    ensures
        r.stacks@ == stacks_in(ascii_lower(prompt@)),
        r.task_type == task_type_of(ascii_lower(prompt@)),
        r.needs_research == research_needed(ascii_lower(prompt@), r.stacks@),
        r.summary@ == summary_of(prompt@),
{
    let lower = str_ascii_lower(prompt);
    let stacks = detect_stacks(lower.as_str());
    let task_type = classify_task(lower.as_str());
    let needs = needs_research(lower.as_str(), stacks.as_slice());
    Intent { stacks, task_type, needs_research: needs, summary: summarize(prompt) }
}

} // verus!
