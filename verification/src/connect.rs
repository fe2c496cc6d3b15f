//! Auto-connect: which local AI tools were found, and the dashboards
//! that show them.
use vstd::prelude::*;

use crate::text::{
    chars_of, decimal, decimal_string, is_ws, is_ws_exec, lemma_trim_start_skip, lines,
    pad_right, pad_right_exec, push_str, str_lines, string_from, to_owned, trim_start, views,
};

verus! {

/// Whether a tool was found.
#[derive(Debug, Clone)]
pub enum ToolStatus {
    Connected,
    NotInstalled,
    Error(String),
}

/// A local AI tool and what was found of it.
#[derive(Debug, Clone)]
pub struct DetectedTool {
    pub name: String,
    pub provider_id: String,
    pub status: ToolStatus,
    pub endpoint: String,
    pub models: Vec<String>,
    pub one_click: bool,
}

/// What probing the machine found: the output of `ollama list` when it
/// succeeded, and for each other tool whether it answered.
#[derive(Debug, Clone)]
pub struct ToolProbes {
    pub ollama_list: Option<String>,
    pub opencode: bool,
    pub gemini_cli: bool,
    pub lmstudio: bool,
    pub copilot_cli: bool,
    pub continue_config: bool,
    pub gpt4all: bool,
}

/// The tools found on the machine.
#[derive(Debug, Clone)]
pub struct AutoConnector {
    pub tools: Vec<DetectedTool>,
}

/// Whether `t` describes the tool `name` (`id`): connected at `endpoint`
/// with `models` when it was found, not installed otherwise.
pub open spec fn tool_entry(
    t: DetectedTool,
    name: Seq<char>,
    id: Seq<char>,
    found: bool,
    endpoint: Seq<char>,
    models: Seq<Seq<char>>,
) -> bool {
    &&& t.name@ == name
    &&& t.provider_id@ == id
    &&& if found {
        &&& t.status is Connected
        &&& t.endpoint@ == endpoint
        &&& views(t.models@) == models
        &&& t.one_click
    } else {
        &&& t.status is NotInstalled
        &&& t.endpoint@ == ""@
        &&& t.models@.len() == 0
        &&& !t.one_click
    }
}

/// Index of the first whitespace character, or the length.
pub open spec fn ws_index(t: Seq<char>) -> int
    decreases t.len(),
{
    if t.len() == 0 || is_ws(t[0]) {
        0
    } else {
        1 + ws_index(t.skip(1))
    }
}

/// The first whitespace-separated word of a line, if any.
pub open spec fn first_word(l: Seq<char>) -> Option<Seq<char>> {
    let t = trim_start(l);
    if t.len() == 0 {
        None
    } else {
        Some(t.take(ws_index(t)))
    }
}

/// The first words of the lines that have one.
pub open spec fn first_words(ls: Seq<Seq<char>>) -> Seq<Seq<char>>
    decreases ls.len(),
{
    if ls.len() == 0 {
        seq![]
    } else {
        let rest = first_words(ls.drop_last());
        match first_word(ls.last()) {
            Some(w) => rest.push(w),
            None => rest,
        }
    }
}

/// The models `ollama list` reports: the first word of each line after
/// the header.
pub open spec fn ollama_models(out: Seq<char>) -> Seq<Seq<char>> {
    if lines(out).len() == 0 {
        seq![]
    } else {
        first_words(lines(out).skip(1))
    }
}

/// The number of connected tools.
pub open spec fn connected(tools: Seq<DetectedTool>) -> nat
    decreases tools.len(),
{
    if tools.len() == 0 {
        0
    } else {
        connected(tools.drop_last()) + if tools.last().status is Connected {
            1nat
        } else {
            0nat
        }
    }
}

/// The icon of a status.
pub open spec fn status_icon(s: ToolStatus) -> Seq<char> {
    match s {
        ToolStatus::Connected => "✅"@,
        ToolStatus::NotInstalled => "⬜"@,
        ToolStatus::Error(_) => "⚠️"@,
    }
}

/// How many models a tool offers, in words.
pub open spec fn model_count_text(n: nat) -> Seq<char> {
    if n == 0 {
        "none"@
    } else {
        decimal(n) + " models"@
    }
}

/// A tool's dashboard row.
pub open spec fn dashboard_row(t: DetectedTool) -> Seq<char> {
    "│ "@ + status_icon(t.status) + " "@ + pad_right(t.name@, 18) + " "@ + pad_right(
        model_count_text(t.models@.len()),
        12,
    ) + DASH_ROW_END@
}

/// The dashboard rows of the tools, in order.
pub open spec fn dashboard_rows(tools: Seq<DetectedTool>) -> Seq<char>
    decreases tools.len(),
{
    if tools.len() == 0 {
        seq![]
    } else {
        dashboard_rows(tools.drop_last()) + dashboard_row(tools.last())
    }
}

/// The dashboard: a row per tool, then how many are connected.
pub open spec fn dashboard(tools: Seq<DetectedTool>) -> Seq<char> {
    DASH_TOP@ + dashboard_rows(tools) + "│ Connected: "@ + decimal(connected(tools)) + "/"@
        + decimal(tools.len()) + DASH_COUNT_END@ + DASH_BOTTOM@
}

/// The line of a connected tool: its name, provider and first model.
pub open spec fn connected_line(t: DetectedTool) -> Seq<char> {
    "- **"@ + t.name@ + "** → `"@ + t.provider_id@ + "` ("@ + (if t.models@.len() > 0 {
        t.models@[0]@
    } else {
        "detected"@
    }) + ")\n"@
}

/// The lines of the connected tools, in order.
pub open spec fn connected_lines(tools: Seq<DetectedTool>) -> Seq<char>
    decreases tools.len(),
{
    if tools.len() == 0 {
        seq![]
    } else {
        connected_lines(tools.drop_last()) + if tools.last().status is Connected {
            connected_line(tools.last())
        } else {
            seq![]
        }
    }
}

/// The lines of the tools that are not installed, in order.
pub open spec fn missing_lines(tools: Seq<DetectedTool>) -> Seq<char>
    decreases tools.len(),
{
    if tools.len() == 0 {
        seq![]
    } else {
        missing_lines(tools.drop_last()) + if tools.last().status is NotInstalled {
            "- "@ + tools.last().name@ + " — install to auto-connect\n"@
        } else {
            seq![]
        }
    }
}

/// Whether some tool is not installed.
pub open spec fn any_missing(tools: Seq<DetectedTool>) -> bool {
    exists|i: int| 0 <= i < tools.len() && #[trigger] tools[i].status is NotInstalled
}

/// The one-click page: the connected tools, then (when there are any)
/// the tools that could be installed.
pub open spec fn one_click(tools: Seq<DetectedTool>) -> Seq<char> {
    "## One-Click Connect\n\n### ✅ Connected\n"@ + connected_lines(tools) + if any_missing(
        tools,
    ) {
        "\n### 📦 Available (not installed)\n"@ + missing_lines(tools)
    } else {
        seq![]
    }
}

/// Top of the dashboard.
pub const DASH_TOP: &'static str = "\n┌─ Auto-Connect Dashboard ────────────────────┐\n";

/// End of a dashboard row.
pub const DASH_ROW_END: &'static str = "         │\n";

/// End of the dashboard's count line.
pub const DASH_COUNT_END: &'static str = "                              │\n";

/// Bottom of the dashboard.
pub const DASH_BOTTOM: &'static str = "└──────────────────────────────────────────────┘\n";

/// `ws_index` is the first whitespace position.
proof fn lemma_ws_index_is(t: Seq<char>, k: int)
    requires
        0 <= k <= t.len(),
        k < t.len() ==> is_ws(t[k]),
        forall|j: int| 0 <= j < k ==> !is_ws(t[j]),
    ensures
        ws_index(t) == k,
    decreases k,
{
    if k > 0 {
        assert(!is_ws(t[0]));
        assert forall|j: int| 0 <= j < k - 1 implies !is_ws(t.skip(1)[j]) by {
            assert(t.skip(1)[j] == t[j + 1]);
        }
        if k < t.len() {
            assert(t.skip(1)[k - 1] == t[k]);
        }
        lemma_ws_index_is(t.skip(1), k - 1);
    }
}

/// The first word of a line.
pub(crate) fn first_word_exec(l: &str) -> (r: Option<String>)
    ensures
        r matches Some(w) ==> first_word(l@) == Some(w@),
        r is None ==> first_word(l@) is None,
{
    let cs = chars_of(l);
    let n = cs.len();
    let mut a: usize = 0;
    while a < n && is_ws_exec(cs[a])
        invariant
            a <= n == cs@.len(),
            forall|j: int| 0 <= j < a ==> is_ws(cs@[j]),
        decreases n - a,
    {
        a += 1;
    }
    proof {
        lemma_trim_start_skip(cs@, a as int);
        if a < n {
            assert(cs@.skip(a as int)[0] == cs@[a as int]);
        }
    }
    let ghost t = cs@.skip(a as int);
    assert(trim_start(l@) == t) by {
        if a < n {
            assert(!is_ws(t[0]));
        }
    }
    if a == n {
        return None;
    }
    let mut b = a;
    while b < n && !is_ws_exec(cs[b])
        invariant
            a <= b <= n == cs@.len(),
            forall|j: int| a <= j < b ==> !is_ws(cs@[j]),
        decreases n - b,
    {
        b += 1;
    }
    proof {
        assert forall|j: int| 0 <= j < b - a implies !is_ws(t[j]) by {
            assert(t[j] == cs@[a + j]);
        }
        if b < n {
            assert(t[b - a] == cs@[b as int]);
        }
        lemma_ws_index_is(t, b - a);
        assert(t.take(b - a) =~= cs@.subrange(a as int, b as int));
    }
    Some(string_from(&cs, a, b))
}

/// The models in the output of `ollama list`.
fn ollama_models_exec(out: &str) -> (r: Vec<String>)
    ensures
        views(r@) == ollama_models(out@),
{
    let ls = str_lines(out);
    let mut models: Vec<String> = Vec::new();
    if ls.len() == 0 {
        return models;
    }
    let ghost rest = views(ls@).skip(1);
    let mut i: usize = 1;
    assert(rest.take(0) =~= Seq::<Seq<char>>::empty());
    while i < ls.len()
        invariant
            1 <= i <= ls.len(),
            views(ls@) == lines(out@),
            rest == views(ls@).skip(1),
            views(models@) == first_words(rest.take(i - 1)),
        decreases ls.len() - i,
    {
        let ghost before = models@;
        proof {
            assert(rest.take(i as int).drop_last() =~= rest.take(i - 1));
            assert(rest.take(i as int).last() == ls@[i as int]@);
        }
        match first_word_exec(ls[i].as_str()) {
            Some(w) => {
                models.push(w);
                assert(views(models@) =~= views(before).push(models@.last()@));
            },
            None => {},
        }
        i += 1;
    }
    assert(rest.take(i - 1) =~= rest);
    models
}

/// A strings vector holding the given texts.
fn strings(items: &[&str]) -> (r: Vec<String>)
    ensures
        r@.len() == items@.len(),
        forall|i: int| 0 <= i < items@.len() ==> #[trigger] r@[i]@ == items@[i]@,
{
    let mut out: Vec<String> = Vec::new();
    let mut i: usize = 0;
    while i < items.len()
        invariant
            i <= items.len(),
            out@.len() == i,
            forall|j: int| 0 <= j < i ==> #[trigger] out@[j]@ == items@[j]@,
        decreases items.len() - i,
    {
        out.push(to_owned(items[i]));
        i += 1;
    }
    out
}

impl DetectedTool {
    /// A connected tool.
    fn ok(name: &str, id: &str, endpoint: &str, models: Vec<String>) -> (r: Self)
        ensures
            tool_entry(r, name@, id@, true, endpoint@, views(models@)),
    {
        DetectedTool {
            name: to_owned(name),
            provider_id: to_owned(id),
            status: ToolStatus::Connected,
            endpoint: to_owned(endpoint),
            models,
            one_click: true,
        }
    }

    /// A tool that is not installed.
    fn missing(name: &str, id: &str) -> (r: Self)
        ensures
            tool_entry(r, name@, id@, false, ""@, seq![]),
    {
        DetectedTool {
            name: to_owned(name),
            provider_id: to_owned(id),
            status: ToolStatus::NotInstalled,
            endpoint: to_owned(""),
            models: Vec::new(),
            one_click: false,
        }
    }
}

impl AutoConnector {
    /// The tools as probing found them, in a fixed order: Ollama,
    /// OpenCode, Gemini CLI, LM Studio, GitHub Copilot, Continue.dev,
    /// GPT4All.
    pub fn scan(p: &ToolProbes) -> (r: Self)
        ensures
            r.tools@.len() == 7,
            tool_entry(
                r.tools@[0],
                "Ollama"@,
                "sonic"@,
                p.ollama_list is Some,
                "http://localhost:11434/v1"@,
                match p.ollama_list {
                    Some(o) => ollama_models(o@),
                    None => seq![],
                },
            ),
            tool_entry(r.tools@[1], "OpenCode"@, "opencode"@, p.opencode, "opencode"@, seq!["gpt-4o"@]),
            tool_entry(r.tools@[2], "Gemini CLI"@, "gemini-cli"@, p.gemini_cli, "gemini"@, seq!["gemini-2.5-flash"@, "gemini-2.5-pro"@]),
            tool_entry(r.tools@[3], "LM Studio"@, "lmstudio"@, p.lmstudio, "http://localhost:1234/v1"@, seq!["local-model"@]),
            tool_entry(r.tools@[4], "GitHub Copilot"@, "copilot"@, p.copilot_cli, "gh copilot"@, seq!["copilot"@]),
            tool_entry(r.tools@[5], "Continue.dev"@, "continue"@, p.continue_config, "continue"@, seq!["codestral"@, "gpt-4o-mini"@]),
            tool_entry(r.tools@[6], "GPT4All"@, "gpt4all"@, p.gpt4all, "http://localhost:4891/v1"@, seq!["local-model"@]),
    {
        let mut tools: Vec<DetectedTool> = Vec::new();
        tools.push(Self::detect_ollama(
            match &p.ollama_list {
                Some(o) => Some(o.as_str()),
                None => None,
            },
        ));
        tools.push(Self::detect_opencode(p.opencode));
        tools.push(Self::detect_gemini_cli(p.gemini_cli));
        tools.push(Self::detect_lmstudio(p.lmstudio));
        tools.push(Self::detect_copilot_cli(p.copilot_cli));
        tools.push(Self::detect_continue(p.continue_config));
        tools.push(Self::detect_gpt4all(p.gpt4all));
        AutoConnector { tools }
    }

    /// Ollama, given the output of `ollama list` when it succeeded.
    fn detect_ollama(list_output: Option<&str>) -> (r: DetectedTool)
        ensures
            tool_entry(
                r,
                "Ollama"@,
                "sonic"@,
                list_output is Some,
                "http://localhost:11434/v1"@,
                match list_output {
                    Some(o) => ollama_models(o@),
                    None => seq![],
                },
            ),
    {
        match list_output {
            Some(out) => {
                let models = ollama_models_exec(out);
                DetectedTool::ok("Ollama", "sonic", "http://localhost:11434/v1", models)
            },
            None => DetectedTool::missing("Ollama", "sonic"),
        }
    }

    /// OpenCode, given whether `opencode --version` succeeded.
    fn detect_opencode(found: bool) -> (r: DetectedTool)
        ensures
            tool_entry(r, "OpenCode"@, "opencode"@, found, "opencode"@, seq!["gpt-4o"@]),
    {
        if found {
            let models = strings(&["gpt-4o"]);
            assert(views(models@) =~= seq!["gpt-4o"@]);
            DetectedTool::ok("OpenCode", "opencode", "opencode", models)
        } else {
            DetectedTool::missing("OpenCode", "opencode")
        }
    }

    /// Gemini CLI, given whether `gemini --version` succeeded.
    fn detect_gemini_cli(found: bool) -> (r: DetectedTool)
        ensures
            tool_entry(r, "Gemini CLI"@, "gemini-cli"@, found, "gemini"@, seq!["gemini-2.5-flash"@, "gemini-2.5-pro"@]),
    {
        if found {
            let models = strings(&["gemini-2.5-flash", "gemini-2.5-pro"]);
            assert(views(models@) =~= seq!["gemini-2.5-flash"@, "gemini-2.5-pro"@]);
            DetectedTool::ok("Gemini CLI", "gemini-cli", "gemini", models)
        } else {
            DetectedTool::missing("Gemini CLI", "gemini-cli")
        }
    }

    /// LM Studio, given whether its local server answered.
    fn detect_lmstudio(reachable: bool) -> (r: DetectedTool)
        ensures
            tool_entry(r, "LM Studio"@, "lmstudio"@, reachable, "http://localhost:1234/v1"@, seq!["local-model"@]),
    {
        if reachable {
            let models = strings(&["local-model"]);
            assert(views(models@) =~= seq!["local-model"@]);
            DetectedTool::ok("LM Studio", "lmstudio", "http://localhost:1234/v1", models)
        } else {
            DetectedTool::missing("LM Studio", "lmstudio")
        }
    }

    /// GitHub Copilot, given whether `gh copilot --version` succeeded.
    fn detect_copilot_cli(found: bool) -> (r: DetectedTool)
        ensures
            tool_entry(r, "GitHub Copilot"@, "copilot"@, found, "gh copilot"@, seq!["copilot"@]),
    {
        if found {
            let models = strings(&["copilot"]);
            assert(views(models@) =~= seq!["copilot"@]);
            DetectedTool::ok("GitHub Copilot", "copilot", "gh copilot", models)
        } else {
            DetectedTool::missing("GitHub Copilot", "copilot")
        }
    }

    /// Continue.dev, given whether its configuration file exists.
    fn detect_continue(found: bool) -> (r: DetectedTool)
        ensures
            tool_entry(r, "Continue.dev"@, "continue"@, found, "continue"@, seq!["codestral"@, "gpt-4o-mini"@]),
    {
        if found {
            let models = strings(&["codestral", "gpt-4o-mini"]);
            assert(views(models@) =~= seq!["codestral"@, "gpt-4o-mini"@]);
            DetectedTool::ok("Continue.dev", "continue", "continue", models)
        } else {
            DetectedTool::missing("Continue.dev", "continue")
        }
    }

    /// GPT4All, given whether its local server answered.
    fn detect_gpt4all(reachable: bool) -> (r: DetectedTool)
        ensures
            tool_entry(r, "GPT4All"@, "gpt4all"@, reachable, "http://localhost:4891/v1"@, seq!["local-model"@]),
    {
        if reachable {
            let models = strings(&["local-model"]);
            assert(views(models@) =~= seq!["local-model"@]);
            DetectedTool::ok("GPT4All", "gpt4all", "http://localhost:4891/v1", models)
        } else {
            DetectedTool::missing("GPT4All", "gpt4all")
        }
    }

    /// The number of connected tools.
    pub fn connected_count(&self) -> (r: usize)
        ensures
            r == connected(self.tools@),
    {
        let mut n: usize = 0;
        let mut i: usize = 0;
        while i < self.tools.len()
            invariant
                i <= self.tools.len(),
                n == connected(self.tools@.take(i as int)),
                n <= i,
            decreases self.tools.len() - i,
        {
            proof {
                assert(self.tools@.take(i + 1).drop_last() =~= self.tools@.take(i as int));
                assert(self.tools@.take(i + 1).last() == self.tools@[i as int]);
            }
            if matches!(self.tools[i].status, ToolStatus::Connected) {
                n += 1;
            }
            i += 1;
        }
        assert(self.tools@.take(i as int) =~= self.tools@);
        n
    }

    /// The dashboard: a row per tool with its status and model count,
    /// then how many are connected.
    pub fn render_dashboard(&self) -> (r: String)
        ensures
            r@ == dashboard(self.tools@),
    {
        let mut out = to_owned(DASH_TOP);
        let ghost head = out@;
        let mut i: usize = 0;
        while i < self.tools.len()
            invariant
                i <= self.tools.len(),
                out@ == head + dashboard_rows(self.tools@.take(i as int)),
            decreases self.tools.len() - i,
        {
            proof {
                assert(self.tools@.take(i + 1).drop_last() =~= self.tools@.take(i as int));
                assert(self.tools@.take(i + 1).last() == self.tools@[i as int]);
            }
            let t = &self.tools[i];
            let icon = match t.status {
                ToolStatus::Connected => "✅",
                ToolStatus::NotInstalled => "⬜",
                ToolStatus::Error(_) => "⚠️",
            };
            let cnt = if t.models.len() == 0 {
                to_owned("none")
            } else {
                let mut c = decimal_string(t.models.len() as u128);
                push_str(&mut c, " models");
                c
            };
            push_str(&mut out, "│ ");
            push_str(&mut out, icon);
            push_str(&mut out, " ");
            let name = pad_right_exec(t.name.as_str(), 18);
            push_str(&mut out, name.as_str());
            push_str(&mut out, " ");
            let cp = pad_right_exec(cnt.as_str(), 12);
            push_str(&mut out, cp.as_str());
            push_str(&mut out, DASH_ROW_END);
            i += 1;
            assert(out@ =~= head + dashboard_rows(self.tools@.take(i as int)));
        }
        assert(self.tools@.take(i as int) =~= self.tools@);
        push_str(&mut out, "│ Connected: ");
        let c = decimal_string(self.connected_count() as u128);
        push_str(&mut out, c.as_str());
        push_str(&mut out, "/");
        let n = decimal_string(self.tools.len() as u128);
        push_str(&mut out, n.as_str());
        push_str(&mut out, DASH_COUNT_END);
        push_str(&mut out, DASH_BOTTOM);
        out
    }

    /// The one-click page: each connected tool with its provider and
    /// first model, then the tools that are not installed.
    pub fn render_one_click(&self) -> (r: String)
        ensures
            r@ == one_click(self.tools@),
    {
        let mut out = to_owned("## One-Click Connect\n\n### ✅ Connected\n");
        let ghost head = out@;
        let mut i: usize = 0;
        while i < self.tools.len()
            invariant
                i <= self.tools.len(),
                out@ == head + connected_lines(self.tools@.take(i as int)),
            decreases self.tools.len() - i,
        {
            proof {
                assert(self.tools@.take(i + 1).drop_last() =~= self.tools@.take(i as int));
                assert(self.tools@.take(i + 1).last() == self.tools@[i as int]);
            }
            let t = &self.tools[i];
            if matches!(t.status, ToolStatus::Connected) {
                push_str(&mut out, "- **");
                push_str(&mut out, t.name.as_str());
                push_str(&mut out, "** → `");
                push_str(&mut out, t.provider_id.as_str());
                push_str(&mut out, "` (");
                if t.models.len() > 0 {
                    push_str(&mut out, t.models[0].as_str());
                } else {
                    push_str(&mut out, "detected");
                }
                push_str(&mut out, ")\n");
            }
            i += 1;
            assert(out@ =~= head + connected_lines(self.tools@.take(i as int)));
        }
        assert(self.tools@.take(i as int) =~= self.tools@);
        let mut missing = String::new();
        let mut has_missing = false;
        let mut k: usize = 0;
        while k < self.tools.len()
            invariant
                k <= self.tools.len(),
                missing@ == missing_lines(self.tools@.take(k as int)),
                has_missing == any_missing(self.tools@.take(k as int)),
            decreases self.tools.len() - k,
        {
            let ghost pre = self.tools@.take(k as int);
            let ghost next = self.tools@.take(k + 1);
            proof {
                assert(next.drop_last() =~= pre);
                assert(next.last() == self.tools@[k as int]);
                if any_missing(next) {
                    let j = choose|j: int| 0 <= j < next.len() && #[trigger] next[j].status is NotInstalled;
                    if j < k {
                        assert(pre[j] == next[j]);
                    }
                }
                if any_missing(pre) {
                    let j = choose|j: int| 0 <= j < pre.len() && #[trigger] pre[j].status is NotInstalled;
                    assert(next[j] == pre[j]);
                }
            }
            let t = &self.tools[k];
            if matches!(t.status, ToolStatus::NotInstalled) {
                push_str(&mut missing, "- ");
                push_str(&mut missing, t.name.as_str());
                push_str(&mut missing, " — install to auto-connect\n");
                has_missing = true;
                assert(next[k as int].status is NotInstalled);
            } else {
                assert(missing@ =~= missing_lines(pre) + Seq::<char>::empty());
            }
            k += 1;
        }
        assert(self.tools@.take(k as int) =~= self.tools@);
        if has_missing {
            push_str(&mut out, "\n### 📦 Available (not installed)\n");
            push_str(&mut out, missing.as_str());
        }
        out
    }
}

} // verus!
