//! Completion suggestions over the acquired-repository records: names
//! matching a partial argument, and short `owner/name` clone targets
//! derived from well-known URLs.

use vstd::prelude::*;
use vstd::string::StrSliceExecFns;
use crate::text::{spec_starts_with, spec_contains, str_starts_with, str_contains};
use crate::resolve::{strip_git_suffix, strip_git};
use crate::types::InstalledRepo;

verus! {

/// The names suggested for a partial argument: each record's name that
/// begins with the partial (every name when the partial is empty), in
/// record order.
pub open spec fn repo_name_suggestions(rs: Seq<InstalledRepo>, p: Seq<char>) -> Seq<Seq<char>>
    decreases rs.len(),
{
    if rs.len() == 0 {
        Seq::empty()
    } else {
        repo_name_suggestions(rs.drop_last(), p) + if spec_starts_with(rs.last().name@, p)
            || p.len() == 0 {
            seq![rs.last().name@]
        } else {
            Seq::empty()
        }
    }
}

/// The clone target suggested for one record, if any: records whose
/// URL or name matches the partial, and whose URL lies under the
/// well-known host, suggest their `owner/name` form with every
/// trailing `.git` removed — provided that short form still matches
/// the partial.
pub open spec fn clone_target_of(r: InstalledRepo, p: Seq<char>) -> Option<Seq<char>> {
    if (spec_contains(r.url@, p) || spec_contains(r.name@, p) || p.len() == 0)
        && spec_starts_with(r.url@, ("https://github.com/")@) {
        let short = strip_git_suffix(r.url@.skip(("https://github.com/")@.len() as int));
        if spec_contains(short, p) || p.len() == 0 {
            Some(short)
        } else {
            None
        }
    } else {
        None
    }
}

/// The clone targets suggested for a partial argument, in record order.
pub open spec fn clone_target_suggestions(rs: Seq<InstalledRepo>, p: Seq<char>) -> Seq<Seq<char>>
    decreases rs.len(),
{
    if rs.len() == 0 {
        Seq::empty()
    } else {
        clone_target_suggestions(rs.drop_last(), p) + match clone_target_of(rs.last(), p) {
            Some(s) => seq![s],
            None => Seq::empty(),
        }
    }
}

/// Suggests the record names matching a partial argument.
pub fn complete_repo_suggestions(repos: &Vec<InstalledRepo>, partial: &str) -> (r: Vec<String>)
    ensures
        r@.map_values(|s: String| s@) == repo_name_suggestions(repos@, partial@),
{
    let n = repos.len();
    let mut out: Vec<String> = Vec::new();
    let mut i: usize = 0;
    proof {
        assert(repos@.take(0) =~= Seq::<InstalledRepo>::empty());
        assert(out@.map_values(|s: String| s@) =~= repo_name_suggestions(repos@.take(0), partial@));
    }
    while i < n
        invariant
            n == repos@.len(),
            0 <= i <= n,
            out@.map_values(|s: String| s@) == repo_name_suggestions(repos@.take(i as int), partial@),
        decreases n - i,
    {
        let ghost pre = repos@.take(i as int);
        let ghost post = repos@.take(i + 1);
        proof {
            assert(post.drop_last() =~= pre);
            assert(post.last() == repos@[i as int]);
        }
        let ghost before = out@.map_values(|s: String| s@);
        if str_starts_with(repos[i].name.as_str(), partial) || partial.is_empty() {
            out.push(repos[i].name.clone());
            proof {
                assert(out@.map_values(|s: String| s@) =~= before.push(repos@[i as int].name@));
                assert(out@.map_values(|s: String| s@) =~= repo_name_suggestions(post, partial@));
            }
        } else {
            proof {
                assert(out@.map_values(|s: String| s@) =~= repo_name_suggestions(post, partial@));
            }
        }
        i = i + 1;
    }
    proof {
        assert(repos@.take(n as int) =~= repos@);
    }
    out
}

/// Suggests the short clone targets matching a partial argument.
pub fn complete_clone_suggestions(repos: &Vec<InstalledRepo>, partial: &str) -> (r: Vec<String>)
    ensures
        r@.map_values(|s: String| s@) == clone_target_suggestions(repos@, partial@),
{
    let n = repos.len();
    let mut out: Vec<String> = Vec::new();
    let mut i: usize = 0;
    proof {
        assert(repos@.take(0) =~= Seq::<InstalledRepo>::empty());
        assert(out@.map_values(|s: String| s@) =~= clone_target_suggestions(
            repos@.take(0),
            partial@,
        ));
    }
    while i < n
        invariant
            n == repos@.len(),
            0 <= i <= n,
            out@.map_values(|s: String| s@) == clone_target_suggestions(
                repos@.take(i as int),
                partial@,
            ),
        decreases n - i,
    {
        let ghost pre = repos@.take(i as int);
        let ghost post = repos@.take(i + 1);
        proof {
            assert(post.drop_last() =~= pre);
            assert(post.last() == repos@[i as int]);
        }
        let ghost before = out@.map_values(|s: String| s@);
        let rec = &repos[i];
        let matched = str_contains(rec.url.as_str(), partial) || str_contains(
            rec.name.as_str(),
            partial,
        ) || partial.is_empty();
        if matched && str_starts_with(rec.url.as_str(), "https://github.com/") {
            let pl = "https://github.com/".unicode_len();
            let ul = rec.url.as_str().unicode_len();
            let rest = rec.url.as_str().substring_char(pl, ul);
            proof {
                assert(rest@ =~= rec.url@.skip(("https://github.com/")@.len() as int));
            }
            let short = strip_git(rest);
            if str_contains(short, partial) || partial.is_empty() {
                proof {
                    assert(clone_target_of(repos@[i as int], partial@) == Some(short@));
                }
                out.push(short.to_owned());
                proof {
                    assert(out@.map_values(|s: String| s@) =~= before.push(short@));
                    assert(out@.map_values(|s: String| s@) =~= clone_target_suggestions(
                        post,
                        partial@,
                    ));
                }
            } else {
                proof {
                    assert(clone_target_of(repos@[i as int], partial@).is_none());
                    assert(out@.map_values(|s: String| s@) =~= clone_target_suggestions(
                        post,
                        partial@,
                    ));
                }
            }
        } else {
            proof {
                assert(clone_target_of(repos@[i as int], partial@).is_none());
                assert(out@.map_values(|s: String| s@) =~= clone_target_suggestions(
                    post,
                    partial@,
                ));
            }
        }
        i = i + 1;
    }
    proof {
        assert(repos@.take(n as int) =~= repos@);
    }
    out
}

} // verus!
