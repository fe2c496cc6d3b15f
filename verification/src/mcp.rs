//! The registries of MCP servers and project templates, and how a server
//! setting refers to an environment variable.
use vstd::prelude::*;

use crate::text::{chars_of, ends_with, starts_with, str_ends_with, str_eq, str_starts_with, string_from, views};

verus! {

/// How to start an MCP server.
#[derive(Debug, Clone)]
pub struct McpServerConfig {
    pub name: String,
    pub description: String,
    pub command: String,
    pub args: Vec<String>,
    /// Environment settings, by variable name.
    pub env: Vec<(String, String)>,
}

/// The known MCP servers, by id; no id occurs twice.
#[derive(Debug)]
pub struct McpRegistry {
    servers: Vec<(String, McpServerConfig)>,
}

/// A project template.
#[derive(Debug, Clone)]
pub struct TemplateConfig {
    pub name: String,
    pub description: String,
    pub stack: String,
    pub category: String,
    pub featured: bool,
    pub command: Option<String>,
    pub args: Option<Vec<String>>,
    pub env: Vec<(String, String)>,
    pub mcp_required: Vec<String>,
}

/// The known project templates, by id; no id occurs twice.
#[derive(Debug)]
pub struct TemplateRegistry {
    templates: Vec<(String, TemplateConfig)>,
}

/// The ids of a list of entries, in order.
pub open spec fn ids<T>(entries: Seq<(String, T)>) -> Seq<Seq<char>> {
    entries.map_values(|e: (String, T)| e.0@)
}

/// Whether no two entries share an id.
pub open spec fn distinct_ids<T>(entries: Seq<(String, T)>) -> bool {
    forall|i: int, j: int| 0 <= i < j < entries.len() ==> (#[trigger] entries[i]).0@ != (#[trigger] entries[j]).0@
}

/// The entries after registering `v` under `id`: it takes the place of
/// the entry with that id, or comes last when there is none.
pub open spec fn put<T>(entries: Seq<(String, T)>, id: String, v: T) -> Seq<(String, T)> {
    match position_of(entries, id@) {
        Some(i) => entries.update(i, (id, v)),
        None => entries.push((id, v)),
    }
}

/// The position of the first entry with the given id, if any.
pub open spec fn position_of<T>(entries: Seq<(String, T)>, id: Seq<char>) -> Option<int> {
    if exists|i: int| 0 <= i < entries.len() && #[trigger] entries[i].0@ == id {
        Some(choose|i: int| 0 <= i < entries.len() && #[trigger] entries[i].0@ == id && forall|j: int| 0 <= j < i ==> #[trigger] entries[j].0@ != id)
    } else {
        None
    }
}

/// The templates satisfying a test on their settings, in registry order.
pub open spec fn select(entries: Seq<(String, TemplateConfig)>, keep: spec_fn(TemplateConfig) -> bool) -> Seq<TemplateConfig>
    decreases entries.len(),
{
    if entries.len() == 0 {
        seq![]
    } else {
        let rest = select(entries.drop_last(), keep);
        if keep(entries.last().1) {
            rest.push(entries.last().1)
        } else {
            rest
        }
    }
}

/// The name of the variable a setting refers to: a value written
/// `${NAME}`.
pub open spec fn env_reference_of(value: Seq<char>) -> Option<Seq<char>> {
    if starts_with(value, "${"@) && ends_with(value, "}"@) {
        Some(value.subrange(2, value.len() - 1))
    } else {
        None
    }
}

/// What the position of an id says: where it is found, the entry there
/// has the id; where it is not, no entry has it.
pub(crate) proof fn lemma_position_of<T>(entries: Seq<(String, T)>, id: Seq<char>)
    ensures
        match position_of(entries, id) {
            Some(i) => 0 <= i < entries.len() && entries[i].0@ == id,
            None => forall|j: int| 0 <= j < entries.len() ==> #[trigger] entries[j].0@ != id,
        },
{
    if exists|i: int| 0 <= i < entries.len() && #[trigger] entries[i].0@ == id {
        let k = choose|i: int| 0 <= i < entries.len() && #[trigger] entries[i].0@ == id;
        lemma_first_position(entries, id, k);
    }
}

/// An id that occurs has a first occurrence.
proof fn lemma_first_position<T>(entries: Seq<(String, T)>, id: Seq<char>, k: int)
    requires
        0 <= k < entries.len(),
        entries[k].0@ == id,
    ensures
        exists|i: int|
            0 <= i < entries.len() && #[trigger] entries[i].0@ == id && forall|j: int|
                0 <= j < i ==> #[trigger] entries[j].0@ != id,
    decreases k,
{
    if exists|j: int| 0 <= j < k && #[trigger] entries[j].0@ == id {
        let j = choose|j: int| 0 <= j < k && #[trigger] entries[j].0@ == id;
        lemma_first_position(entries, id, j);
    } else {
        assert(forall|j: int| 0 <= j < k ==> #[trigger] entries[j].0@ != id);
    }
}

/// The position of the entry with the given id.
pub(crate) fn find_id<T>(entries: &Vec<(String, T)>, id: &str) -> (r: Option<usize>)
    ensures
        match position_of(entries@, id@) {
            Some(i) => r matches Some(k) && k == i,
            None => r is None,
        },
{
    let mut i: usize = 0;
    while i < entries.len()
        invariant
            i <= entries.len(),
            forall|j: int| 0 <= j < i ==> #[trigger] entries@[j].0@ != id@,
        decreases entries.len() - i,
    {
        if str_eq(entries[i].0.as_str(), id) {
            proof {
                let p = choose|k: int| 0 <= k < entries@.len() && #[trigger] entries@[k].0@ == id@ && forall|j: int| 0 <= j < k ==> #[trigger] entries@[j].0@ != id@;
                assert(entries@[i as int].0@ == id@);
                if p < i {
                    assert(entries@[p].0@ != id@);
                }
                if p > i {
                    assert(entries@[i as int].0@ != id@);
                }
            }
            return Some(i);
        }
        i += 1;
    }
    None
}

/// Register `v` under `id` in a list of distinct ids.
fn put_exec<T>(entries: &mut Vec<(String, T)>, id: String, v: T)
    requires
        distinct_ids(old(entries)@),
    ensures
        final(entries)@ == put(old(entries)@, id, v),
        distinct_ids(final(entries)@),
{
    let ghost before = entries@;
    let ghost key = id@;
    proof {
        lemma_position_of(before, key);
    }
    match find_id(entries, id.as_str()) {
        Some(i) => {
            entries.set(i, (id, v));
            proof {
                assert forall|a: int, b: int| 0 <= a < b < entries@.len() implies (#[trigger] entries@[a]).0@
                    != (#[trigger] entries@[b]).0@ by {
                    assert(entries@[a].0@ == before[a].0@);
                    assert(entries@[b].0@ == before[b].0@);
                }
            }
        },
        None => {
            entries.push((id, v));
            proof {
                assert forall|a: int, b: int| 0 <= a < b < entries@.len() implies (#[trigger] entries@[a]).0@
                    != (#[trigger] entries@[b]).0@ by {
                    if b == before.len() {
                        assert(entries@[a] == before[a]);
                        assert(before[a].0@ != key);
                    } else {
                        assert(entries@[a] == before[a]);
                        assert(entries@[b] == before[b]);
                    }
                }
            }
        },
    }
}

impl View for McpRegistry {
    type V = Seq<(String, McpServerConfig)>;

    closed spec fn view(&self) -> Seq<(String, McpServerConfig)> {
        self.servers@
    }
}

impl McpRegistry {
    #[verifier::type_invariant]
    spec fn ids_distinct(self) -> bool {
        distinct_ids(self.servers@)
    }

    /// A registry with no servers.
    pub fn new() -> (r: Self)
        ensures
            r@ == Seq::<(String, McpServerConfig)>::empty(),
    {
        McpRegistry { servers: Vec::new() }
    }

    /// Register a server under `id`, in place of one with that id.
    pub fn insert(&mut self, id: String, config: McpServerConfig)
        ensures
            final(self)@ == put(old(self)@, id, config),
    {
        proof {
            use_type_invariant(&*self);
        }
        let mut servers: Vec<(String, McpServerConfig)> = Vec::new();
        std::mem::swap(&mut servers, &mut self.servers);
        put_exec(&mut servers, id, config);
        self.servers = servers;
    }

    /// The servers with their ids, in order; no id occurs twice.
    pub fn servers(&self) -> (r: &Vec<(String, McpServerConfig)>)
        ensures
            r@ == self@,
            distinct_ids(self@),
    {
        proof {
            use_type_invariant(self);
        }
        &self.servers
    }

    /// The server registered under `id`.
    pub fn get(&self, id: &str) -> (r: Option<&McpServerConfig>)
        ensures
            match position_of(self@, id@) {
                Some(i) => r == Some(&self@[i].1),
                None => r is None,
            },
    {
        proof {
            lemma_position_of(self.servers@, id@);
        }
        match find_id(&self.servers, id) {
            Some(i) => Some(&self.servers[i].1),
            None => None,
        }
    }

    /// The registered ids, in order.
    pub fn list(&self) -> (r: Vec<&String>)
        ensures
            r@.len() == self@.len(),
            forall|i: int| 0 <= i < r@.len() ==> *#[trigger] r@[i] == self@[i].0,
    {
        let mut out: Vec<&String> = Vec::new();
        let mut i: usize = 0;
        while i < self.servers.len()
            invariant
                i <= self.servers.len(),
                out@.len() == i,
                forall|j: int| 0 <= j < i ==> *#[trigger] out@[j] == self.servers@[j].0,
            decreases self.servers.len() - i,
        {
            out.push(&self.servers[i].0);
            i += 1;
        }
        out
    }
}

/// The ids of the MCP servers a registry offers, in order, each once.
pub fn list_available_mcps(registry: &McpRegistry) -> (r: Vec<String>)
    ensures
        views(r@) == ids(registry@),
        forall|i: int, j: int| 0 <= i < j < r@.len() ==> (#[trigger] r@[i])@ != (#[trigger] r@[j])@,
{
    let servers = registry.servers();
    let mut out: Vec<String> = Vec::new();
    let mut i: usize = 0;
    while i < servers.len()
        invariant
            i <= servers.len(),
            views(out@) == ids(servers@.take(i as int)),
        decreases servers.len() - i,
    {
        let ghost before = out@;
        out.push(servers[i].0.clone());
        assert(views(out@) =~= views(before).push(servers@[i as int].0@));
        i += 1;
        assert(views(out@) =~= ids(servers@.take(i as int)));
    }
    assert(servers@.take(i as int) =~= servers@);
    proof {
        assert forall|a: int, b: int| 0 <= a < b < out@.len() implies (#[trigger] out@[a])@
            != (#[trigger] out@[b])@ by {
            assert(out@[a]@ == views(out@)[a]);
            assert(out@[b]@ == views(out@)[b]);
        }
    }
    out
}

/// The variable a setting refers to, when it is written `${NAME}`.
pub fn env_reference(value: &str) -> (r: Option<String>)
    ensures
        match env_reference_of(value@) {
            Some(n) => r matches Some(s) && s@ == n,
            None => r is None,
        },
{
    if str_starts_with(value, "${") && str_ends_with(value, "}") {
        proof {
            reveal_strlit("${");
            reveal_strlit("}");
            assert(value@.subrange(0, 2)[1] == value@[1]);
            assert(value@.subrange(value@.len() - 1, value@.len() as int)[0] == value@[value@.len() - 1]);
        }
        let cs = chars_of(value);
        Some(string_from(&cs, 2, cs.len() - 1))
    } else {
        None
    }
}

impl View for TemplateRegistry {
    type V = Seq<(String, TemplateConfig)>;

    closed spec fn view(&self) -> Seq<(String, TemplateConfig)> {
        self.templates@
    }
}

impl TemplateRegistry {
    #[verifier::type_invariant]
    spec fn ids_distinct(self) -> bool {
        distinct_ids(self.templates@)
    }

    /// A registry with no templates.
    pub fn new() -> (r: Self)
        ensures
            r@ == Seq::<(String, TemplateConfig)>::empty(),
    {
        TemplateRegistry { templates: Vec::new() }
    }

    /// Register a template under `id`, in place of one with that id.
    pub fn insert(&mut self, id: String, template: TemplateConfig)
        ensures
            final(self)@ == put(old(self)@, id, template),
    {
        proof {
            use_type_invariant(&*self);
        }
        let mut templates: Vec<(String, TemplateConfig)> = Vec::new();
        std::mem::swap(&mut templates, &mut self.templates);
        put_exec(&mut templates, id, template);
        self.templates = templates;
    }

    /// The templates with their ids, in order; no id occurs twice.
    pub fn templates(&self) -> (r: &Vec<(String, TemplateConfig)>)
        ensures
            r@ == self@,
            distinct_ids(self@),
    {
        proof {
            use_type_invariant(self);
        }
        &self.templates
    }

    /// The templates a test keeps, in registry order.
    fn select_exec(&self, stack: Option<&str>, category: Option<&str>) -> (r: Vec<&TemplateConfig>)
        ensures
            r@.len() == select(self@, |t: TemplateConfig| keeps(t, stack, category)).len(),
            forall|i: int| 0 <= i < r@.len() ==> *#[trigger] r@[i] == select(self@, |t: TemplateConfig| keeps(t, stack, category))[i],
    {
        let ghost keep = |t: TemplateConfig| keeps(t, stack, category);
        let mut out: Vec<&TemplateConfig> = Vec::new();
        let mut i: usize = 0;
        while i < self.templates.len()
            invariant
                i <= self.templates.len(),
                keep == (|t: TemplateConfig| keeps(t, stack, category)),
                out@.len() == select(self.templates@.take(i as int), keep).len(),
                forall|j: int| 0 <= j < out@.len() ==> *#[trigger] out@[j] == select(self.templates@.take(i as int), keep)[j],
            decreases self.templates.len() - i,
        {
            proof {
                assert(self.templates@.take(i + 1).drop_last() =~= self.templates@.take(i as int));
                assert(self.templates@.take(i + 1).last() == self.templates@[i as int]);
            }
            let t = &self.templates[i].1;
            let k = match (stack, category) {
                (Some(s), _) => str_eq(t.stack.as_str(), s),
                (None, Some(c)) => str_eq(t.category.as_str(), c),
                (None, None) => t.featured,
            };
            if k {
                out.push(t);
            }
            i += 1;
        }
        assert(self.templates@.take(i as int) =~= self.templates@);
        out
    }

    /// The featured templates, in registry order.
    pub fn featured(&self) -> (r: Vec<&TemplateConfig>)
        ensures
            r@.len() == select(self@, |t: TemplateConfig| t.featured).len(),
            forall|i: int| 0 <= i < r@.len() ==> *#[trigger] r@[i] == select(self@, |t: TemplateConfig| t.featured)[i],
    {
        let r = self.select_exec(None, None);
        assert((|t: TemplateConfig| keeps(t, None, None)) =~= (|t: TemplateConfig| t.featured));
        r
    }

    /// The templates for a stack, in registry order.
    pub fn by_stack(&self, stack: &str) -> (r: Vec<&TemplateConfig>)
        ensures
            r@.len() == select(self@, |t: TemplateConfig| t.stack@ == stack@).len(),
            forall|i: int| 0 <= i < r@.len() ==> *#[trigger] r@[i] == select(self@, |t: TemplateConfig| t.stack@ == stack@)[i],
    {
        let r = self.select_exec(Some(stack), None);
        assert((|t: TemplateConfig| keeps(t, Some(stack), None)) =~= (|t: TemplateConfig| t.stack@ == stack@));
        r
    }

    /// The templates of a category, in registry order.
    pub fn by_category(&self, category: &str) -> (r: Vec<&TemplateConfig>)
        ensures
            r@.len() == select(self@, |t: TemplateConfig| t.category@ == category@).len(),
            forall|i: int| 0 <= i < r@.len() ==> *#[trigger] r@[i] == select(self@, |t: TemplateConfig| t.category@ == category@)[i],
    {
        let r = self.select_exec(None, Some(category));
        assert((|t: TemplateConfig| keeps(t, None, Some(category))) =~= (|t: TemplateConfig| t.category@ == category@));
        r
    }
}

/// The test of a selection: by stack, else by category, else featured.
pub open spec fn keeps(t: TemplateConfig, stack: Option<&str>, category: Option<&str>) -> bool {
    match stack {
        Some(s) => t.stack@ == s@,
        None => match category {
            Some(c) => t.category@ == c@,
            None => t.featured,
        },
    }
}

} // verus!
