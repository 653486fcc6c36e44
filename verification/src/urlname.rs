//! Destination-name resolution: the final path segment of a source URL,
//! with a fixed fallback, and joining a file name under a directory.

use vstd::prelude::*;

verus! {

/// The final path segment of a URL string, as `url::Url` parses it:
/// `Some` exactly when the string parses as a URL whose path begins with
/// a slash, `None` otherwise. The full parse is a function of the
/// characters alone.
pub uninterp spec fn url_last_segment(s: Seq<char>) -> Option<Seq<char>>;

/// Relies on `url::Url::parse` and `Url::path_segments`: parsing is a pure
/// function of the URL string, `path_segments` is `Some` exactly for URLs
/// whose path starts with a slash, and `last` of the non-empty segment
/// split always yields a segment.
#[verifier::external_body]
fn parse_last_segment(url: &str) -> (r: Option<String>)
    ensures
        match r {
            Some(seg) => url_last_segment(url@) == Some(seg@),
            None => url_last_segment(url@) is None,
        },
{
    url::Url::parse(url).ok().and_then(
        |parsed|
            parsed.path_segments().and_then(|segments| segments.last()).map(
                |seg| seg.to_string(),
            ),
    )
}

/// The destination file name for a source URL: its final path segment,
/// or a fixed fallback name when the URL cannot be parsed.
pub open spec fn extract_filename_spec(url: Seq<char>) -> Seq<char> {
    match url_last_segment(url) {
        Some(seg) => seg,
        None => "default_filename"@,
    }
}

/// Resolves the destination file name for a source URL.
pub fn extract_filename(url: &str) -> (r: String)
    ensures
        r@ == extract_filename_spec(url@),
{
    match parse_last_segment(url) {
        Some(seg) => seg,
        None => {
            let fallback: &str = "default_filename";
            fallback.to_owned()
        },
    }
}

/// A directory path joined with a file name by a single separator.
pub open spec fn joined_path(dir: Seq<char>, name: Seq<char>) -> Seq<char> {
    dir + seq!['/'] + name
}

/// Joins a file name under a directory path.
pub fn join_path(dir: &str, name: &str) -> (r: String)
    ensures
        r@ == joined_path(dir@, name@),
{
    let mut s = dir.to_owned();
    let sep: &str = "/";
    proof {
        reveal_strlit("/");
    }
    s.append(sep);
    s.append(name);
    proof {
        assert(s@ =~= joined_path(dir@, name@));
    }
    s
}

} // verus!
