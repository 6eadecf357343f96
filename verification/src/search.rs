//! Building the repository-search request: the search expression and
//! the fully encoded request URL.  The network call itself is the
//! caller's; the library only owes it the exact URL, and the selection
//! of the top results from the decoded response.

use vstd::prelude::*;
use vstd::string::StringSliceAdditionalSpecFns;
use vstd::string::StringExecFns;
use vstd::utf8::encode_utf8;
use crate::text::contains_char;
use crate::types::{GitHubRepo, GitHubSearchResponse};

verus! {

/// The search expression for a query: an `owner/name` query asks for
/// that repository exactly, anything else searches repository names.
pub open spec fn spec_search_query(q: Seq<char>) -> Seq<char> {
    if q.contains('/') {
        ("repo:")@ + q
    } else {
        q + (" in:name")@
    }
}

/// Bytes that percent-encoding passes through unchanged: ASCII
/// alphanumerics and `-`, `.`, `_`, `~`.
pub open spec fn url_unreserved(b: u8) -> bool {
    (48 <= b <= 57) || (65 <= b <= 90) || (97 <= b <= 122) || b == 45 || b == 46 || b == 95 || b
        == 126
}

/// The ASCII character for an upper-case hex digit below 16.
pub open spec fn upper_hex_char(n: u8) -> char
    recommends
        n < 16,
{
    if n < 10 {
        ((48 + n) as u8) as char
    } else {
        ((55 + n) as u8) as char
    }
}

/// Percent-encoding of a byte sequence: unreserved bytes unchanged,
/// every other byte as `%` and two upper-case hex digits.
pub open spec fn percent_encoded(s: Seq<u8>) -> Seq<char>
    decreases s.len(),
{
    if s.len() == 0 {
        Seq::empty()
    } else {
        (if url_unreserved(s[0]) {
            seq![s[0] as char]
        } else {
            seq!['%', upper_hex_char(s[0] / 16), upper_hex_char(s[0] % 16)]
        }) + percent_encoded(s.drop_first())
    }
}

/// Relies on `urlencoding::encode`: percent-encodes every byte of the
/// UTF-8 input except ASCII alphanumerics and `-`, `.`, `_`, `~`,
/// writing upper-case hex digits.
#[verifier::external_body]
fn url_encode(s: &str) -> (r: String)
    ensures
        r@ == percent_encoded(s.spec_bytes()),
{
    urlencoding::encode(s).into_owned()
}

/// Builds the search expression for a query.
pub fn build_search_query(query: &str) -> (r: String)
    ensures
        r@ == spec_search_query(query@),
{
    if contains_char(query, '/') {
        String::from_str("repo:").concat(query)
    } else {
        query.to_owned().concat(" in:name")
    }
}

/// Builds the full search request URL for a query: the fixed endpoint,
/// the percent-encoded search expression, and the fixed ordering
/// parameters.
pub fn build_search_url(query: &str) -> (r: String)
    ensures
        r@ == ("https://api.github.com/search/repositories?q=")@ + percent_encoded(
            encode_utf8(spec_search_query(query@)),
        ) + ("&sort=stars&order=desc")@,
{
    let q = build_search_query(query);
    let enc = url_encode(q.as_str());
    String::from_str("https://api.github.com/search/repositories?q=").concat(enc.as_str()).concat(
        "&sort=stars&order=desc",
    )
}

/// The leading `limit` results of a search response (all of them when
/// there are fewer).
pub fn top_results(resp: GitHubSearchResponse, limit: usize) -> (r: Vec<GitHubRepo>)
    ensures
        resp.items@.len() <= limit ==> r@ == resp.items@,
        resp.items@.len() > limit ==> r@ == resp.items@.take(limit as int),
{
    let mut items = resp.items;
    items.truncate(limit);
    items
}

} // verus!
