//! Package registries as research sources: where a package is looked up
//! and what pub.dev and npm say about it.
use vstd::prelude::*;

use crate::docs::DocCandidate;
use crate::text::{push_str, to_owned};

verus! {

/// The pub.dev package API.
pub const PUB_DEV_API: &'static str = "https://pub.dev/api/packages/";

/// The npm registry.
pub const NPM_REGISTRY: &'static str = "https://registry.npmjs.org/";

/// Text that may be missing, as text: empty when missing.
pub open spec fn text_or_empty(t: Option<String>) -> Seq<char> {
    match t {
        Some(s) => s@,
        None => Seq::empty(),
    }
}

/// Where pub.dev describes a package.
pub fn pub_dev_api_url(package: &str) -> (r: String)
    ensures
        r@ == PUB_DEV_API@ + package@,
{
    let mut s = to_owned(PUB_DEV_API);
    push_str(&mut s, package);
    s
}

/// Where the npm registry describes a package.
pub fn npm_registry_url(package: &str) -> (r: String)
    ensures
        r@ == NPM_REGISTRY@ + package@,
{
    let mut s = to_owned(NPM_REGISTRY);
    push_str(&mut s, package);
    s
}

/// What pub.dev says of a package: its latest version, scored by how
/// many versions it has had (one point per version, up to a hundred).
pub fn pub_dev_candidate(
    name: String,
    latest_name: &str,
    latest_version: String,
    description: Option<String>,
    total_versions: usize,
) -> (c: DocCandidate)
    ensures
        c.name@ == name@,
        c.version@ == latest_version@,
        c.score_pct == (if total_versions < 100 {
            total_versions
        } else {
            100
        }),
        c.reason@ == text_or_empty(description),
        c.source@ == "pub.dev"@,
        c.url matches Some(u) && u@ == "https://pub.dev/packages/"@ + latest_name@,
{
    let score: u8 = if total_versions < 100 {
        total_versions as u8
    } else {
        100
    };
    let reason = match description {
        Some(d) => d,
        None => String::new(),
    };
    let mut url = to_owned("https://pub.dev/packages/");
    push_str(&mut url, latest_name);
    DocCandidate {
        name,
        version: latest_version,
        score_pct: score,
        reason,
        source: to_owned("pub.dev"),
        url: Some(url),
    }
}

/// What npm says of a package: its latest tagged version (`unknown`
/// without one), scored low when the package is deprecated and high
/// otherwise.
pub fn npm_candidate(
    package: &str,
    name: String,
    latest: Option<&str>,
    deprecated: bool,
    description: Option<String>,
) -> (c: DocCandidate)
    ensures
        c.name@ == name@,
        c.version@ == (match latest {
            Some(v) => v@,
            None => "unknown"@,
        }),
        c.score_pct == (if deprecated {
            10u8
        } else {
            90u8
        }),
        c.reason@ == text_or_empty(description),
        c.source@ == "npm"@,
        c.url matches Some(u) && u@ == "https://www.npmjs.com/package/"@ + package@,
{
    let version = match latest {
        Some(v) => to_owned(v),
        None => to_owned("unknown"),
    };
    let reason = match description {
        Some(d) => d,
        None => String::new(),
    };
    let mut url = to_owned("https://www.npmjs.com/package/");
    push_str(&mut url, package);
    DocCandidate {
        name,
        version,
        score_pct: if deprecated {
            10
        } else {
            90
        },
        reason,
        source: to_owned("npm"),
        url: Some(url),
    }
}

} // verus!
