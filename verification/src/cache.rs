//! Research cache keys.
use vstd::prelude::*;

use crate::text::{
    ascii_lower, chars_of, is_ascii_alnum, lower_char, lower_char_exec, push_char, push_str, to_owned,
};

verus! {

/// A topic as it appears in a cache key: lower-cased (ASCII), with every
/// character that is not an ASCII letter or digit replaced by `_`.
pub open spec fn normalized(topic: Seq<char>) -> Seq<char> {
    topic.map_values(
        |c: char|
            if is_ascii_alnum(lower_char(c)) {
                lower_char(c)
            } else {
                '_'
            },
    )
}

/// The cache key of a (source, stack, topic) query.
pub open spec fn cache_key(source: Seq<char>, stack: Seq<char>, topic: Seq<char>) -> Seq<char> {
    "research:"@ + source + ":"@ + stack + ":"@ + normalized(topic)
}

/// Normalize a topic for a cache key.
pub fn normalize(topic: &str) -> (r: String)
    ensures
        r@ == normalized(topic@),
{
    let cs = chars_of(topic);
    let mut out = String::new();
    let mut i: usize = 0;
    while i < cs.len()
        invariant
            i <= cs.len(),
            cs@ == topic@,
            out@ == normalized(cs@.take(i as int)),
        decreases cs.len() - i,
    {
        let c = lower_char_exec(cs[i]);
        let d = if ('a' <= c && c <= 'z') || ('A' <= c && c <= 'Z') || ('0' <= c && c <= '9') {
            c
        } else {
            '_'
        };
        push_char(&mut out, d);
        i += 1;
        assert(out@ =~= normalized(cs@.take(i as int)));
    }
    assert(cs@.take(i as int) =~= cs@);
    out
}

/// What a research cache provides to the sources: a deterministic key
/// for each query.
pub trait CacheKey: Send + Sync {
    /// The key of a (source, stack, topic) query.
    fn key(&self, source: &str, stack: &str, topic: &str) -> (r: String)
        ensures
            r@ == cache_key(source@, stack@, topic@),
    {
        let mut k = to_owned("research:");
        push_str(&mut k, source);
        push_str(&mut k, ":");
        push_str(&mut k, stack);
        push_str(&mut k, ":");
        let t = normalize(topic);
        push_str(&mut k, t.as_str());
        k
    }
}

/// How long a cached research result is kept by default, in seconds: a
/// day.
pub const DEFAULT_TTL: u64 = 86_400;

/// The keyspace of the shared research cache: where its entries live and
/// how long they are kept. The connection itself belongs to the caller.
pub struct RedisResearchCache {
    ttl_seconds: u64,
    key_prefix: String,
}

impl RedisResearchCache {
    /// The prefix of every key.
    pub closed spec fn prefix(&self) -> Seq<char> {
        self.key_prefix@
    }

    /// How long an entry is kept, in seconds.
    pub closed spec fn ttl(&self) -> u64 {
        self.ttl_seconds
    }

    /// The keyspace under the `kontrocode:research` prefix, keeping
    /// entries for `ttl_seconds`.
    pub fn new(ttl_seconds: u64) -> (r: Self)
        ensures
            r.prefix() == "kontrocode:research"@,
            r.ttl() == ttl_seconds,
    {
        RedisResearchCache { ttl_seconds, key_prefix: to_owned("kontrocode:research") }
    }

    /// How long an entry is kept, in seconds.
    pub fn ttl_seconds(&self) -> (r: u64)
        ensures
            r == self.ttl(),
    {
        self.ttl_seconds
    }

    /// The key of a (source, stack, topic) query: the prefix and the three
    /// parts, joined by `:`.
    pub fn full_key(&self, source: &str, stack: &str, topic: &str) -> (r: String)
        ensures
            r@ == self.prefix() + ":"@ + source@ + ":"@ + stack@ + ":"@ + topic@,
    {
        let mut k = self.key_prefix.clone();
        push_str(&mut k, ":");
        push_str(&mut k, source);
        push_str(&mut k, ":");
        push_str(&mut k, stack);
        push_str(&mut k, ":");
        push_str(&mut k, topic);
        k
    }
}

/// Cache keys do not depend on the ASCII case of the topic: a topic and
/// its lower-cased form share a key.
pub proof fn lemma_key_ignores_ascii_case(source: Seq<char>, stack: Seq<char>, topic: Seq<char>)
    ensures
        cache_key(source, stack, topic) == cache_key(source, stack, ascii_lower(topic)),
{
    assert(normalized(topic) =~= normalized(ascii_lower(topic)));
}

} // verus!
