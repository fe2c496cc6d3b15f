//! The providers a router can use, by id, kept in the order of their ids.
use vstd::prelude::*;

use crate::mcp::{find_id, ids, lemma_position_of, position_of};
use crate::provider::ModelId;
use crate::text::{chars_of, views};

verus! {

/// Whether `a` comes before `b` in the order of `str`: character by
/// character, a proper prefix first.
pub open spec fn str_less(a: Seq<char>, b: Seq<char>) -> bool
    decreases a.len(),
{
    if a.len() == 0 {
        b.len() > 0
    } else if b.len() == 0 {
        false
    } else if a[0] == b[0] {
        str_less(a.drop_first(), b.drop_first())
    } else {
        a[0] < b[0]
    }
}

/// No text comes before itself.
pub proof fn lemma_str_less_irreflexive(a: Seq<char>)
    ensures
        !str_less(a, a),
    decreases a.len(),
{
    if a.len() > 0 {
        lemma_str_less_irreflexive(a.drop_first());
    }
}

/// Of two different texts, one comes before the other.
pub proof fn lemma_str_less_total(a: Seq<char>, b: Seq<char>)
    ensures
        a != b ==> str_less(a, b) || str_less(b, a),
    decreases a.len(),
{
    if a.len() > 0 && b.len() > 0 && a[0] == b[0] {
        lemma_str_less_total(a.drop_first(), b.drop_first());
        if a.drop_first() == b.drop_first() {
            assert(a =~= seq![a[0]] + a.drop_first());
            assert(b =~= seq![b[0]] + b.drop_first());
        }
    } else if a.len() == 0 && b.len() == 0 {
        assert(a =~= b);
    }
}

/// The order is transitive.
pub proof fn lemma_str_less_transitive(a: Seq<char>, b: Seq<char>, c: Seq<char>)
    requires
        str_less(a, b),
        str_less(b, c),
    ensures
        str_less(a, c),
    decreases a.len(),
{
    if a.len() > 0 && b.len() > 0 && c.len() > 0 && a[0] == b[0] && b[0] == c[0] {
        lemma_str_less_transitive(a.drop_first(), b.drop_first(), c.drop_first());
    }
}

/// Whether `a` comes before `b`, computed.
pub fn str_less_exec(a: &str, b: &str) -> (r: bool)
    ensures
        r == str_less(a@, b@),
{
    let ac = chars_of(a);
    let bc = chars_of(b);
    let mut i: usize = 0;
    assert(a@.skip(0) =~= a@);
    assert(b@.skip(0) =~= b@);
    while i < ac.len() && i < bc.len() && ac[i] == bc[i]
        invariant
            i <= ac@.len(),
            i <= bc@.len(),
            ac@ == a@,
            bc@ == b@,
            str_less(a@, b@) == str_less(a@.skip(i as int), b@.skip(i as int)),
        decreases ac.len() - i,
    {
        proof {
            assert(a@.skip(i as int).drop_first() =~= a@.skip(i + 1));
            assert(b@.skip(i as int).drop_first() =~= b@.skip(i + 1));
        }
        i += 1;
    }
    if i == ac.len() {
        i < bc.len()
    } else if i == bc.len() {
        false
    } else {
        ac[i] < bc[i]
    }
}

/// Whether the entries come in strictly increasing order of their ids.
pub open spec fn sorted_by_id<P>(entries: Seq<(String, P)>) -> bool {
    forall|i: int, j: int| 0 <= i < j < entries.len() ==> str_less((#[trigger] entries[i]).0@, (#[trigger] entries[j]).0@)
}

/// In entries ordered by id, no two share an id.
pub proof fn lemma_sorted_ids_distinct<P>(entries: Seq<(String, P)>, a: int, b: int)
    requires
        sorted_by_id(entries),
        0 <= a < entries.len(),
        0 <= b < entries.len(),
        a != b,
    ensures
        entries[a].0@ != entries[b].0@,
{
    lemma_str_less_irreflexive(entries[a].0@);
    if a < b {
        assert(str_less(entries[a].0@, entries[b].0@));
    } else {
        assert(str_less(entries[b].0@, entries[a].0@));
    }
}

/// Entries ordered by id stay ordered when one is put in at a place where
/// the ids before it are smaller and the id after it is larger.
proof fn lemma_insert_sorted<P>(entries: Seq<(String, P)>, k: int, x: (String, P))
    requires
        sorted_by_id(entries),
        0 <= k <= entries.len(),
        forall|j: int| 0 <= j < k ==> str_less((#[trigger] entries[j]).0@, x.0@),
        k < entries.len() ==> str_less(x.0@, entries[k].0@),
    ensures
        sorted_by_id(entries.insert(k, x)),
{
    let e = entries.insert(k, x);
    assert forall|a: int, b: int| 0 <= a < b < e.len() implies str_less((#[trigger] e[a]).0@, (#[trigger] e[b]).0@) by {
        if b < k {
            assert(e[a] == entries[a] && e[b] == entries[b]);
        } else if b == k {
            assert(e[a] == entries[a]);
        } else if a < k {
            assert(e[a] == entries[a] && e[b] == entries[b - 1]);
            if b - 1 > k {
                lemma_str_less_transitive(x.0@, entries[k].0@, entries[b - 1].0@);
            }
            lemma_str_less_transitive(entries[a].0@, x.0@, entries[b - 1].0@);
        } else if a == k {
            assert(e[b] == entries[b - 1]);
            if b - 1 > k {
                lemma_str_less_transitive(x.0@, entries[k].0@, entries[b - 1].0@);
            }
        } else {
            assert(e[a] == entries[a - 1] && e[b] == entries[b - 1]);
        }
    }
}

/// Entries ordered by id stay ordered when one is replaced by an entry
/// with the same id.
proof fn lemma_update_sorted<P>(entries: Seq<(String, P)>, k: int, x: (String, P))
    requires
        sorted_by_id(entries),
        0 <= k < entries.len(),
        entries[k].0@ == x.0@,
    ensures
        sorted_by_id(entries.update(k, x)),
{
    let e = entries.update(k, x);
    assert forall|a: int, b: int| 0 <= a < b < e.len() implies str_less((#[trigger] e[a]).0@, (#[trigger] e[b]).0@) by {
        assert(e[a].0@ == entries[a].0@);
        assert(e[b].0@ == entries[b].0@);
    }
}

/// The place of `id` among entries ordered by id: the ids before it are
/// smaller, the one at it is not.
fn search_place<P>(entries: &Vec<(String, P)>, id: &str) -> (r: usize)
    ensures
        r <= entries@.len(),
        forall|j: int| 0 <= j < r ==> str_less((#[trigger] entries@[j]).0@, id@),
        r < entries@.len() ==> !str_less(entries@[r as int].0@, id@),
{
    let mut i: usize = 0;
    while i < entries.len() && str_less_exec(entries[i].0.as_str(), id)
        invariant
            i <= entries@.len(),
            forall|j: int| 0 <= j < i ==> str_less((#[trigger] entries@[j]).0@, id@),
        decreases entries.len() - i,
    {
        i += 1;
    }
    i
}

/// The providers, by id, in the order of their ids; no id occurs twice.
pub struct ProviderRegistry<P> {
    providers: Vec<(String, P)>,
}

impl<P> View for ProviderRegistry<P> {
    type V = Seq<(String, P)>;

    closed spec fn view(&self) -> Seq<(String, P)> {
        self.providers@
    }
}

impl<P> ProviderRegistry<P> {
    #[verifier::type_invariant]
    spec fn ids_sorted(self) -> bool {
        sorted_by_id(self.providers@)
    }

    /// An empty registry.
    pub fn new() -> (r: Self)
        ensures
            r@ == Seq::<(String, P)>::empty(),
    {
        ProviderRegistry { providers: Vec::new() }
    }

    /// The entries, in the order of their ids.
    pub fn entries(&self) -> (r: &Vec<(String, P)>)
        ensures
            r@ == self@,
            sorted_by_id(self@),
    {
        proof {
            use_type_invariant(self);
        }
        &self.providers
    }

    /// Register a provider under `id`, replacing any provider with that
    /// id; the entries stay in the order of their ids.
    pub fn register(&mut self, id: String, provider: P)
        ensures
            sorted_by_id(final(self)@),
            match position_of(old(self)@, id@) {
                Some(i) => final(self)@ == old(self)@.update(i, (id, provider)),
                None => exists|k: int|
                    0 <= k <= old(self)@.len() && final(self)@ == old(self)@.insert(k, (id, provider)),
            },
    {
        proof {
            use_type_invariant(&*self);
        }
        let mut entries: Vec<(String, P)> = Vec::new();
        std::mem::swap(&mut entries, &mut self.providers);
        let ghost before = entries@;
        let ghost key = id@;
        let ghost x = (id, provider);
        proof {
            lemma_position_of(before, key);
        }
        let i = search_place(&entries, id.as_str());
        if i < entries.len() && crate::text::str_eq(entries[i].0.as_str(), id.as_str()) {
            proof {
                assert forall|j: int| 0 <= j < before.len() && j != i implies #[trigger] before[j].0@ != key by {
                    lemma_sorted_ids_distinct(before, j, i as int);
                }
                lemma_update_sorted(before, i as int, x);
            }
            entries.set(i, (id, provider));
        } else {
            proof {
                if i < before.len() {
                    lemma_str_less_total(key, before[i as int].0@);
                }
                assert forall|j: int| 0 <= j < before.len() implies #[trigger] before[j].0@ != key by {
                    lemma_str_less_irreflexive(key);
                    if j > i {
                        lemma_str_less_transitive(key, before[i as int].0@, before[j].0@);
                    }
                }
                lemma_insert_sorted(before, i as int, x);
            }
            entries.insert(i, (id, provider));
        }
        self.providers = entries;
    }

    /// The provider registered under `id`.
    pub fn get(&self, id: &str) -> (r: Option<&P>)
        ensures
            match position_of(self@, id@) {
                Some(i) => r == Some(&self@[i].1),
                None => r is None,
            },
    {
        proof {
            lemma_position_of(self.providers@, id@);
        }
        match find_id(&self.providers, id) {
            Some(i) => Some(&self.providers[i].1),
            None => None,
        }
    }

    /// The provider that serves a model: the one registered under the
    /// model's provider part.
    pub fn provider_for(&self, model: &ModelId) -> (r: Option<&P>)
        ensures
            match position_of(self@, crate::provider::provider_part(model.0@)) {
                Some(i) => r == Some(&self@[i].1),
                None => r is None,
            },
    {
        self.get(model.provider())
    }

    /// The registered ids, in increasing order.
    pub fn ids(&self) -> (r: Vec<String>)
        ensures
            views(r@) == ids(self@),
            forall|i: int, j: int| 0 <= i < j < r@.len() ==> str_less((#[trigger] r@[i])@, (#[trigger] r@[j])@),
    {
        proof {
            use_type_invariant(self);
        }
        let mut out: Vec<String> = Vec::new();
        let mut i: usize = 0;
        while i < self.providers.len()
            invariant
                i <= self.providers.len(),
                views(out@) == ids(self.providers@.take(i as int)),
            decreases self.providers.len() - i,
        {
            let ghost before = out@;
            out.push(self.providers[i].0.clone());
            assert(views(out@) =~= views(before).push(self.providers@[i as int].0@));
            i += 1;
            assert(views(out@) =~= ids(self.providers@.take(i as int)));
        }
        assert(self.providers@.take(i as int) =~= self.providers@);
        proof {
            assert forall|a: int, b: int| 0 <= a < b < out@.len() implies str_less(
                (#[trigger] out@[a])@,
                (#[trigger] out@[b])@,
            ) by {
                assert(out@[a]@ == views(out@)[a]);
                assert(out@[b]@ == views(out@)[b]);
            }
        }
        out
    }

    /// How many providers are registered.
    pub fn len(&self) -> (r: usize)
        ensures
            r == self@.len(),
    {
        self.providers.len()
    }

    /// Whether no provider is registered.
    pub fn is_empty(&self) -> (r: bool)
        ensures
            r == (self@.len() == 0),
    {
        self.providers.len() == 0
    }
}

} // verus!
