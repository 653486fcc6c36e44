//! Session collaborators at their interface boundary: the fixed request
//! header set, the cookie header installed for a session, the masking of
//! a login key in log output, the session cookie picked out of a
//! `Set-Cookie` header, and the decision step of the bounded login
//! polling loop.

use vstd::prelude::*;

use crate::sidecar::is_space;
use crate::sidecar::lemma_trim_front_at;
use crate::sidecar::trim_front;
use crate::strutil::has_prefix;
use crate::strutil::str_has_prefix;

verus! {

/// The fixed identifying header set carried on every outgoing request.
pub fn default_headers() -> (r: Vec<(String, String)>)
    ensures
        r@.len() == 6,
        r@[0].0@ == "User-Agent"@ && r@[0].1@
            == "Mozilla/5.0 (Windows NT 10.0; Win64; x64) AppleWebKit/537.36 (KHTML, like Gecko) Chrome/118.0.0.0 Safari/537.36"@,
        r@[1].0@ == "Accept"@ && r@[1].1@ == "*/*"@,
        r@[2].0@ == "Accept-Language"@ && r@[2].1@ == "en-US,en;q=0.5"@,
        r@[3].0@ == "Range"@ && r@[3].1@ == "bytes=0-"@,
        r@[4].0@ == "Connection"@ && r@[4].1@ == "keep-alive"@,
        r@[5].0@ == "Referer"@ && r@[5].1@ == "https://www.bilibili.com"@,
{
    let mut headers: Vec<(String, String)> = Vec::new();
    headers.push(
        (
            "User-Agent".to_owned(),
            "Mozilla/5.0 (Windows NT 10.0; Win64; x64) AppleWebKit/537.36 (KHTML, like Gecko) Chrome/118.0.0.0 Safari/537.36".to_owned(),
        ),
    );
    headers.push(("Accept".to_owned(), "*/*".to_owned()));
    headers.push(("Accept-Language".to_owned(), "en-US,en;q=0.5".to_owned()));
    headers.push(("Range".to_owned(), "bytes=0-".to_owned()));
    headers.push(("Connection".to_owned(), "keep-alive".to_owned()));
    headers.push(("Referer".to_owned(), "https://www.bilibili.com".to_owned()));
    headers
}

/// The cookie line installed for a fresh session value.
pub open spec fn cookie_header_spec(sessdata: Seq<char>) -> Seq<char> {
    sessdata + "; Domain=.bilibili.com; Path=/"@
}

/// Builds the cookie line installed for a fresh session value.
pub fn cookie_header_value(sessdata: &str) -> (r: String)
    ensures
        r@ == cookie_header_spec(sessdata@),
{
    let mut s = sessdata.to_owned();
    s.append("; Domain=.bilibili.com; Path=/");
    s
}

/// A login key as it may appear in log output: the first eight and last
/// eight characters kept, everything between replaced by asterisks.
pub open spec fn masked_key_spec(key: Seq<char>) -> Seq<char> {
    key.subrange(0, 8) + Seq::new((key.len() - 16) as nat, |i: int| '*') + key.subrange(
        key.len() - 8,
        key.len() as int,
    )
}

/// Masks the middle of a login key for log output. Keys are long enough
/// to keep eight characters at either end.
pub fn mask_key(key: &str) -> (r: String)
    requires
        key@.len() >= 16,
    ensures
        r@ == masked_key_spec(key@),
{
    let len = key.unicode_len();
    let mut s = key.substring_char(0, 8).to_owned();
    let stars = len - 16;
    let mut i: usize = 0;
    while i < stars
        invariant
            s@ =~= key@.subrange(0, 8) + Seq::new(i as nat, |k: int| '*'),
            i <= stars,
        decreases stars - i,
    {
        proof {
            reveal_strlit("*");
        }
        s.append("*");
        proof {
            assert(s@ =~= key@.subrange(0, 8) + Seq::new((i + 1) as nat, |k: int| '*'));
        }
        i += 1;
    }
    s.append(key.substring_char(len - 8, len));
    proof {
        assert(s@ =~= masked_key_spec(key@));
    }
    s
}

/// Index of the first `;` in the string, or its length if there is none.
pub open spec fn first_semi_idx(s: Seq<char>) -> int
    decreases s.len(),
{
    if s.len() == 0 {
        0
    } else if s[0] == ';' {
        0
    } else {
        1 + first_semi_idx(s.drop_first())
    }
}

proof fn lemma_first_semi_idx_at(s: Seq<char>, i: int)
    requires
        0 <= i <= s.len(),
        forall|k: int| 0 <= k < i ==> s[k] != ';',
        i == s.len() || s[i] == ';',
    ensures
        first_semi_idx(s) == i,
    decreases i,
{
    if i > 0 {
        lemma_first_semi_idx_at(s.drop_first(), i - 1);
    }
}

/// Whether one cookie segment names the session value: it begins with
/// the session key once leading whitespace is ignored.
pub open spec fn names_sessdata(seg: Seq<char>) -> bool {
    has_prefix(trim_front(seg), "SESSDATA"@)
}

/// The first `;`-separated segment of a cookie header that names the
/// session value, kept verbatim (whitespace and all), if there is one.
pub open spec fn find_sessdata_spec(cookie: Seq<char>) -> Option<Seq<char>>
    decreases cookie.len(),
{
    let i = first_semi_idx(cookie);
    let seg = cookie.subrange(0, i);
    if names_sessdata(seg) {
        Some(seg)
    } else if 0 <= i && i < cookie.len() {
        find_sessdata_spec(cookie.subrange(i + 1, cookie.len() as int))
    } else {
        None
    }
}

/// Tests one segment for the session key, ignoring leading whitespace.
fn segment_names_sessdata(seg: &str) -> (r: bool)
    ensures
        r == names_sessdata(seg@),
{
    let len = seg.unicode_len();
    let mut lo: usize = 0;
    while lo < len && crate::sidecar::char_is_space(seg.get_char(lo))
        invariant
            len == seg@.len(),
            lo <= len,
            forall|k: int| 0 <= k < lo ==> is_space(seg@[k]),
        decreases len - lo,
    {
        lo += 1;
    }
    proof {
        lemma_trim_front_at(seg@, lo as int);
    }
    str_has_prefix(seg.substring_char(lo, len), "SESSDATA")
}

/// Picks the session segment out of a `Set-Cookie` header value.
pub fn find_sessdata(cookie: &str) -> (r: Option<String>)
    ensures
        match r {
            Some(seg) => find_sessdata_spec(cookie@) == Some(seg@),
            None => find_sessdata_spec(cookie@) is None,
        },
    decreases cookie@.len(),
{
    let len = cookie.unicode_len();
    let mut i: usize = 0;
    while i < len && cookie.get_char(i) != ';'
        invariant
            len == cookie@.len(),
            i <= len,
            forall|k: int| 0 <= k < i ==> cookie@[k] != ';',
        decreases len - i,
    {
        i += 1;
    }
    proof {
        lemma_first_semi_idx_at(cookie@, i as int);
    }
    let seg = cookie.substring_char(0, i);
    if segment_names_sessdata(seg) {
        Some(seg.to_owned())
    } else if i < len {
        find_sessdata(cookie.substring_char(i + 1, len))
    } else {
        None
    }
}

/// What one round of the login polling loop decides, from the response
/// codes alone.
#[derive(Clone, Copy, PartialEq, Eq, Structural, Debug)]
pub enum LoginStep {
    /// The upstream refused the poll outright; report and stop.
    Rejected,
    /// The code was scanned and a session is granted; install it.
    Scanned,
    /// The code expired; stop with an error.
    Expired,
    /// Not scanned yet; report status and poll again after the cadence.
    Waiting,
    /// An unrecognized code; stop with an error.
    Unknown,
}

/// The decision of one polling round over the outer and inner response
/// codes.
pub open spec fn login_step_spec(code: Option<i64>, data_code: Option<i64>) -> LoginStep {
    match code {
        Some(c) => if c == -412 {
            LoginStep::Rejected
        } else if c == 0 {
            match data_code {
                Some(d) => if d == 0 {
                    LoginStep::Scanned
                } else if d == 86038 {
                    LoginStep::Expired
                } else if d == 86101 || d == 86090 {
                    LoginStep::Waiting
                } else {
                    LoginStep::Unknown
                },
                None => LoginStep::Unknown,
            }
        } else {
            LoginStep::Unknown
        },
        None => LoginStep::Unknown,
    }
}

/// Decides one round of the login polling loop.
pub fn login_step(code: Option<i64>, data_code: Option<i64>) -> (r: LoginStep)
    ensures
        r == login_step_spec(code, data_code),
{
    match code {
        Some(c) => if c == -412 {
            LoginStep::Rejected
        } else if c == 0 {
            match data_code {
                Some(d) => if d == 0 {
                    LoginStep::Scanned
                } else if d == 86038 {
                    LoginStep::Expired
                } else if d == 86101 || d == 86090 {
                    LoginStep::Waiting
                } else {
                    LoginStep::Unknown
                },
                None => LoginStep::Unknown,
            }
        } else {
            LoginStep::Unknown
        },
        None => LoginStep::Unknown,
    }
}

/// The payload of a `user-mid` event: the member id and the action that
/// resolved it.
pub fn user_mid_event(mid: u64, action: &str) -> (r: Vec<String>)
    ensures
        r@.len() == 2,
        r@[0]@ == crate::strutil::dec_str(mid as nat),
        r@[1]@ == action@,
{
    let mut fields: Vec<String> = Vec::new();
    fields.push(crate::strutil::dec_string(mid as u128));
    fields.push(action.to_owned());
    fields
}

} // verus!
