//! The client's view of the server's HTTP API: where each request goes, and
//! which replies count as success.
use vstd::prelude::*;
use vstd::string::*;

verus! {

/// `s` without the '/' characters at its end (as `trim_end_matches('/')`).
pub open spec fn trim_trailing_slashes(s: Seq<char>) -> Seq<char>
    decreases s.len(),
{
    if s.len() > 0 && s.last() == '/' {
        trim_trailing_slashes(s.drop_last())
    } else {
        s
    }
}

/// Trimming leaves no trailing slash, and trimming again changes nothing.
pub proof fn lemma_trim_is_idempotent(s: Seq<char>)
    ensures
        trim_trailing_slashes(s).len() == 0 || trim_trailing_slashes(s).last() != '/',
        trim_trailing_slashes(trim_trailing_slashes(s)) == trim_trailing_slashes(s),
    decreases s.len(),
{
    if s.len() > 0 && s.last() == '/' {
        lemma_trim_is_idempotent(s.drop_last());
    }
}

/// The base URL that requests are built on: the given one without trailing
/// slashes, so that joining a path that starts with '/' gives one slash.
pub fn normalize_base_url(base_url: &str) -> (r: String)
    ensures
        r@ == trim_trailing_slashes(base_url@),
{
    let n = base_url.unicode_len();
    let mut k: usize = n;
    assert(base_url@.take(n as int) =~= base_url@);
    while k > 0 && base_url.get_char(k - 1) == '/'
        invariant
            n == base_url@.len(),
            k <= n,
            trim_trailing_slashes(base_url@) == trim_trailing_slashes(base_url@.take(k as int)),
        decreases k,
    {
        assert(base_url@.take(k as int).drop_last() =~= base_url@.take(k - 1));
        k = k - 1;
    }
    assert(trim_trailing_slashes(base_url@.take(k as int)) == base_url@.take(k as int));
    let kept = base_url.substring_char(0, k);
    assert(kept@ =~= base_url@.take(k as int));
    String::from_str(kept)
}

/// The URL of the endpoint `path` (such as "/keys") on the server at
/// `base_url` (already normalized).
pub fn endpoint_url(base_url: &str, path: &str) -> (r: String)
    ensures
        r@ == base_url@ + path@,
{
    let mut url = String::from_str(base_url);
    url.append(path);
    url
}

/// Whether a reply with HTTP status `status` is a success (2xx); any other
/// reply is an error that carries the server's plain-text message.
pub fn reply_is_success(status: u16) -> (r: bool)
    ensures
        r == (200 <= status < 300),
{
    200 <= status && status < 300
}

} // verus!
