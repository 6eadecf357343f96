//! Resolving a repository argument to a canonical source URL, and
//! deriving the repository's name from that URL.

use vstd::prelude::*;
use vstd::string::StrSliceExecFns;
use vstd::string::StringExecFns;
use crate::text::{spec_starts_with, spec_ends_with, last_index_of, str_starts_with, str_ends_with,
    last_index_of_char};

verus! {

/// The canonical URL for a repository argument: a full URL is kept as
/// it is, an `owner/name` form is pointed at the well-known host, and
/// anything else is rejected.
pub open spec fn spec_resolved_url(q: Seq<char>) -> Option<Seq<char>> {
    if spec_starts_with(q, ("http://")@) || spec_starts_with(q, ("https://")@) {
        Some(q)
    } else if q.contains('/') {
        Some(("https://github.com/")@ + q)
    } else {
        None
    }
}

/// Resolves a repository argument to its canonical URL, or rejects it.
pub fn resolve_repo_url(repo: &str) -> (r: Option<String>)
    ensures
        match r {
            Some(u) => spec_resolved_url(repo@) == Some(u@),
            None => spec_resolved_url(repo@).is_none(),
        },
{
    if str_starts_with(repo, "http://") || str_starts_with(repo, "https://") {
        return Some(repo.to_owned());
    }
    let n = repo.unicode_len();
    let mut i: usize = 0;
    while i < n
        invariant
            n == repo@.len(),
            0 <= i <= n,
            !spec_starts_with(repo@, ("http://")@),
            !spec_starts_with(repo@, ("https://")@),
            forall|j: int| 0 <= j < i ==> repo@[j] != '/',
        decreases n - i,
    {
        if repo.get_char(i) == '/' {
            proof {
                assert(repo@[i as int] == '/');
            }
            return Some(String::from_str("https://github.com/").concat(repo));
        }
        i = i + 1;
    }
    proof {
        assert(!repo@.contains('/')) by {
            if repo@.contains('/') {
                let j = choose|j: int| 0 <= j < repo@.len() && repo@[j] == '/';
            }
        }
    }
    None
}

/// The URL with every trailing `.git` removed.
pub open spec fn strip_git_suffix(s: Seq<char>) -> Seq<char>
    decreases s.len(),
{
    if spec_ends_with(s, (".git")@) && s.len() >= 4 {
        strip_git_suffix(s.take(s.len() - 4))
    } else {
        s
    }
}

/// The repository's name under a URL: what follows the last `/` once
/// every trailing `.git` is removed.
pub open spec fn spec_repo_name(u: Seq<char>) -> Seq<char> {
    strip_git_suffix(u).skip(last_index_of(strip_git_suffix(u), '/') + 1)
}

/// Removes every trailing `.git` from a name.
pub fn strip_git(input: &str) -> (r: &str)
    ensures
        r@ == strip_git_suffix(input@),
{
    let mut s: &str = input;
    proof {
        reveal_strlit(".git");
    }
    while str_ends_with(s, ".git")
        invariant
            strip_git_suffix(input@) == strip_git_suffix(s@),
            (".git")@.len() == 4,
        decreases s@.len(),
    {
        proof {
            assert(spec_ends_with(s@, (".git")@));
            assert(s@.len() >= 4);
        }
        let ghost prev = s@;
        let l = s.unicode_len();
        s = s.substring_char(0, l - 4);
        proof {
            assert(s@ =~= prev.take(prev.len() - 4));
            assert(strip_git_suffix(prev) == strip_git_suffix(s@));
        }
    }
    proof {
        assert(strip_git_suffix(s@) == s@);
    }
    s
}

/// Derives the repository name from its URL.
pub fn repo_name_from_url(url: &str) -> (r: String)
    ensures
        r@ == spec_repo_name(url@),
{
    let s = strip_git(url);
    let cut = last_index_of_char(s, '/');
    let l = s.unicode_len();
    let name = s.substring_char(cut, l);
    proof {
        assert(name@ =~= spec_repo_name(url@));
    }
    name.to_owned()
}

} // verus!
