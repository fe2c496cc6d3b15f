//! Dependency checks made before committing to a library choice.
use vstd::prelude::*;

use crate::text::{push_str, starts_with, str_starts_with, to_owned};

verus! {

/// The warnings for a dependency list: one for each version starting with
/// `0`, in order.
pub open spec fn version_warnings(deps: Seq<(String, String)>) -> Seq<Seq<char>>
    decreases deps.len(),
{
    if deps.len() == 0 {
        seq![]
    } else {
        let (name, version) = deps.last();
        let rest = version_warnings(deps.drop_last());
        if starts_with(version@, "0"@) {
            rest.push(name@ + "@"@ + version@ + " is pre-1.0, breaking changes may occur"@)
        } else {
            rest
        }
    }
}

/// Warn about pre-1.0 dependencies.
pub fn validate_version_conflict(deps: &[(String, String)]) -> (r: Vec<String>)
    ensures
        r@.map_values(|s: String| s@) == version_warnings(deps@),
{
    let mut warnings: Vec<String> = Vec::new();
    let mut i: usize = 0;
    while i < deps.len()
        invariant
            i <= deps.len(),
            warnings@.map_values(|s: String| s@) == version_warnings(deps@.take(i as int)),
        decreases deps.len() - i,
    {
        let ghost before = warnings@;
        proof {
            assert(deps@.take(i + 1).drop_last() =~= deps@.take(i as int));
            assert(deps@.take(i + 1).last() == deps@[i as int]);
        }
        let (name, version) = &deps[i];
        if str_starts_with(version.as_str(), "0") {
            let mut w = to_owned(name.as_str());
            push_str(&mut w, "@");
            push_str(&mut w, version.as_str());
            push_str(&mut w, " is pre-1.0, breaking changes may occur");
            warnings.push(w);
            assert(warnings@.map_values(|s: String| s@) =~= before.map_values(|s: String| s@).push(w@));
        }
        i += 1;
    }
    assert(deps@.take(i as int) =~= deps@);
    warnings
}

} // verus!
