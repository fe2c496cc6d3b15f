//! Model identifiers and the message roles shared with providers.
use vstd::prelude::*;

use crate::text::{
    chars_of, find_char, lemma_find_char, lemma_find_char_is, push_char, push_str, str_eq, to_owned,
    views,
};

verus! {

/// Who produced a message.
#[derive(Debug, Clone, Copy, PartialEq, Eq, Structural)]
pub enum Role {
    User,
    Assistant,
    Tool,
    System,
}

/// Reason the model stopped generating.
#[derive(Debug, Clone, Copy, PartialEq, Eq, Structural)]
pub enum FinishReason {
    Stop,
    Length,
    ToolCalls,
    ContentFilter,
    Error,
    Other,
}

/// Identifies a model as `"<provider>/<model>"`.
#[derive(Debug, Clone, PartialEq, Eq, Hash)]
pub struct ModelId(pub String);

/// The provider part of a model id: the text before the first `/`, or
/// nothing when there is no `/`.
pub open spec fn provider_part(s: Seq<char>) -> Seq<char> {
    let k = find_char(s, '/');
    if k < s.len() {
        s.take(k)
    } else {
        Seq::empty()
    }
}

/// The model part of a model id: the text after the first `/`, or the
/// whole id when there is no `/`.
pub open spec fn model_part(s: Seq<char>) -> Seq<char> {
    let k = find_char(s, '/');
    if k < s.len() {
        s.skip(k + 1)
    } else {
        s
    }
}

/// Position of the first `/` in `s`, or its length.
fn slash_index(s: &str) -> (k: usize)
    ensures
        k == find_char(s@, '/'),
        k <= s@.len(),
{
    let cs = chars_of(s);
    let mut k: usize = 0;
    while k < cs.len() && cs[k] != '/'
        invariant
            k <= cs.len(),
            cs@ == s@,
            forall|j: int| 0 <= j < k ==> cs@[j] != '/',
        decreases cs.len() - k,
    {
        k += 1;
    }
    proof {
        lemma_find_char_is(s@, '/', k as int);
    }
    k
}

impl ModelId {
    /// Construct a model id from a provider and a model name.
    pub fn new(provider: &str, model: &str) -> (r: Self)
        ensures
            r.0@ == provider@ + seq!['/'] + model@,
    {
        let mut s = String::new();
        push_str(&mut s, provider);
        push_char(&mut s, '/');
        push_str(&mut s, model);
        ModelId(s)
    }

    /// Provider portion (before the first `/`).
    pub fn provider(&self) -> (r: &str)
        ensures
            r@ == provider_part(self.0@),
    {
        let s = self.0.as_str();
        let k = slash_index(s);
        let n = s.unicode_len();
        if k < n {
            s.substring_char(0, k)
        } else {
            s.substring_char(0, 0)
        }
    }

    /// Model portion (after the first `/`).
    pub fn model(&self) -> (r: &str)
        ensures
            r@ == model_part(self.0@),
    {
        let s = self.0.as_str();
        let k = slash_index(s);
        let n = s.unicode_len();
        if k < n {
            s.substring_char(k + 1, n)
        } else {
            s
        }
    }

    /// The id as text.
    pub fn to_string(&self) -> (r: String)
        ensures
            r@ == self.0@,
    {
        self.0.clone()
    }

    /// A model id holding the given text unchanged.
    pub fn from_str(s: &str) -> (r: Self)
        ensures
            r.0@ == s@,
    {
        ModelId(s.to_owned())
    }
}

/// The role name an OpenAI-compatible API expects: system and assistant
/// by name, anything else as the user.
pub open spec fn wire_role_name(r: Role) -> Seq<char> {
    match r {
        Role::System => "system"@,
        Role::Assistant => "assistant"@,
        _ => "user"@,
    }
}

/// The role name an OpenAI-compatible API expects.
pub fn wire_role(r: Role) -> (s: &'static str)
    ensures
        s@ == wire_role_name(r),
{
    match r {
        Role::System => "system",
        Role::Assistant => "assistant",
        _ => "user",
    }
}

/// The finish reason an OpenAI-compatible API reports: `stop`, `length`
/// and `tool_calls` by name, anything else (or nothing) as a stop.
pub open spec fn finish_reason_named(s: Option<Seq<char>>) -> FinishReason {
    match s {
        Some(t) => if t == "length"@ {
            FinishReason::Length
        } else if t == "tool_calls"@ {
            FinishReason::ToolCalls
        } else {
            FinishReason::Stop
        },
        None => FinishReason::Stop,
    }
}

/// The finish reason an OpenAI-compatible API reports.
pub fn parse_finish_reason(s: Option<&str>) -> (r: FinishReason)
    ensures
        r == finish_reason_named(
            match s {
                Some(t) => Some(t@),
                None => None,
            },
        ),
{
    match s {
        Some(t) => {
            if str_eq(t, "length") {
                FinishReason::Length
            } else if str_eq(t, "tool_calls") {
                FinishReason::ToolCalls
            } else {
                FinishReason::Stop
            }
        },
        None => FinishReason::Stop,
    }
}

/// A chat message as the offline provider reads it: who said it and what.
#[derive(Debug, Clone)]
pub struct Turn {
    pub role: Role,
    pub content: String,
}

/// The content of the last user message, if any.
pub open spec fn last_user(turns: Seq<Turn>) -> Option<Seq<char>>
    decreases turns.len(),
{
    if turns.len() == 0 {
        None
    } else if turns.last().role == Role::User {
        Some(turns.last().content@)
    } else {
        last_user(turns.drop_last())
    }
}

/// The offline provider's reply: with tools, which it would have used;
/// without, an echo of the last user message.
pub open spec fn mock_reply(turns: Seq<Turn>, tool_names: Seq<Seq<char>>) -> Seq<char> {
    let said = match last_user(turns) {
        Some(c) => c,
        None => "(no user message)"@,
    };
    if tool_names.len() > 0 {
        "[mock] I would normally use one of "@ + crate::text::join(tool_names, ", "@) + " to help with: "@
            + said + "\n\n(Configure a real provider in `~/.config/kontrocode/config.toml`.)"@
    } else {
        "[mock response]\n\nYou said: \""@ + said
            + "\"\n\nThis is the offline mock provider. Connect a real LLM in Phase 2."@
    }
}

/// The offline provider's reply to a conversation offering the given
/// tools.
pub fn synthesize(turns: &[Turn], tool_names: &Vec<String>) -> (r: String)
    ensures
        r@ == mock_reply(turns@, views(tool_names@)),
{
    let mut k = turns.len();
    assert(turns@.take(k as int) =~= turns@);
    while k > 0 && turns[k - 1].role != Role::User
        invariant
            k <= turns.len(),
            last_user(turns@) == last_user(turns@.take(k as int)),
        decreases k,
    {
        proof {
            assert(turns@.take(k as int).drop_last() =~= turns@.take(k - 1));
        }
        k -= 1;
    }
    proof {
        if k > 0 {
            assert(turns@.take(k as int).last() == turns@[k - 1]);
        } else {
            assert(turns@.take(0) =~= Seq::<Turn>::empty());
        }
    }
    let said: &str = if k > 0 {
        turns[k - 1].content.as_str()
    } else {
        "(no user message)"
    };
    if tool_names.len() > 0 {
        let mut s = to_owned("[mock] I would normally use one of ");
        let joined = crate::text::join_exec(tool_names, ", ");
        push_str(&mut s, joined.as_str());
        push_str(&mut s, " to help with: ");
        push_str(&mut s, said);
        push_str(&mut s, "\n\n(Configure a real provider in `~/.config/kontrocode/config.toml`.)");
        s
    } else {
        let mut s = to_owned("[mock response]\n\nYou said: \"");
        push_str(&mut s, said);
        push_str(&mut s, "\"\n\nThis is the offline mock provider. Connect a real LLM in Phase 2.");
        s
    }
}

} // verus!
