//! The reverse-proxy collaborator at its interface boundary: resolving
//! an inbound path and query to the upstream target URL. Forwarding
//! itself, headers and bodies included, is the shell's work.

use vstd::prelude::*;

use crate::strutil::has_prefix;
use crate::strutil::str_has_prefix;

verus! {

/// An inbound path with its routing prefix stripped: the first of the
/// fixed prefixes that matches is removed; a path matching none is kept
/// whole.
pub open spec fn stripped_path(path: Seq<char>) -> Seq<char> {
    if has_prefix(path, "/api"@) {
        path.skip(4)
    } else if has_prefix(path, "/passport"@) {
        path.skip(9)
    } else if has_prefix(path, "/i0"@) {
        path.skip(3)
    } else {
        path
    }
}

/// The upstream URL a request is forwarded to: the upstream base, the
/// stripped path, and the query string when there is one.
pub open spec fn proxy_target_spec(base: Seq<char>, path: Seq<char>, raw_query: Seq<char>) -> Seq<
    char,
> {
    if raw_query.len() > 0 {
        base + stripped_path(path) + "?"@ + raw_query
    } else {
        base + stripped_path(path)
    }
}

/// Resolves the upstream target URL for an inbound request.
pub fn proxy_target(base: &str, path: &str, raw_query: &str) -> (r: String)
    ensures
        r@ == proxy_target_spec(base@, path@, raw_query@),
{
    let len = path.unicode_len();
    let trimmed: &str = if str_has_prefix(path, "/api") {
        proof {
            reveal_strlit("/api");
        }
        path.substring_char(4, len)
    } else if str_has_prefix(path, "/passport") {
        proof {
            reveal_strlit("/passport");
        }
        path.substring_char(9, len)
    } else if str_has_prefix(path, "/i0") {
        proof {
            reveal_strlit("/i0");
        }
        path.substring_char(3, len)
    } else {
        path
    };
    let mut s = base.to_owned();
    s.append(trimmed);
    if raw_query.unicode_len() > 0 {
        s.append("?");
        s.append(raw_query);
    }
    proof {
        assert(s@ =~= proxy_target_spec(base@, path@, raw_query@));
    }
    s
}

} // verus!
