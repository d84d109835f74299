//! Addresses on the VulnyX site. The platform has no accounts: requests
//! only need a browser-like User-Agent, which the host's HTTP client sets.
use vstd::prelude::*;

use crate::text::{concat, has_prefix, owned, starts_with};

verus! {

/// The site every relative path is resolved against.
pub open spec fn base_url() -> Seq<char> {
    "https://vulnyx.com"@
}

/// The absolute URL of `path`: kept when it already starts with "http",
/// otherwise appended to the site address, with a `/` in between when the
/// path has none.
pub open spec fn resolved_url(path: Seq<char>) -> Seq<char> {
    if has_prefix(path, "http"@) {
        path
    } else if has_prefix(path, "/"@) {
        base_url() + path
    } else {
        base_url() + "/"@ + path
    }
}

/// The absolute URL for a request to `path` (a path on the site or a full
/// URL).
pub fn resolve_url(path: &str) -> (r: String)
    ensures
        r@ == resolved_url(path@),
{
    proof {
        reveal_strlit("https://vulnyx.com");
        reveal_strlit("https://vulnyx.com/");
        reveal_strlit("/");
    }
    if starts_with(path, "http") {
        owned(path)
    } else if starts_with(path, "/") {
        concat("https://vulnyx.com", path)
    } else {
        let r = concat("https://vulnyx.com/", path);
        assert(r@ =~= base_url() + "/"@ + path@);
        r
    }
}

} // verus!
