//! The persisted state of the tool, as the verified core sees it: the
//! list of acquired repositories and the registry of known
//! fingerprints, keyed by source URL.
//!
//! Loading and saving the state are the caller's: the core only needs
//! "is a fingerprint known for URL X", "load it", "store a new one"
//! and "record a completed acquisition".

use vstd::prelude::*;
use crate::types::{InstalledRepo, RepoChecksum};

verus! {

/// One registry binding: a source URL and its fingerprint.
#[derive(Debug, Clone, PartialEq)]
pub struct RegistryEntry {
    pub url: String,
    pub checksum: RepoChecksum,
}

/// The persisted state: acquisition records (append-only) and the
/// fingerprint registry (one binding per URL).
#[derive(Debug, Clone, PartialEq)]
pub struct GitFetchConfig {
    pub installed_repos: Vec<InstalledRepo>,
    pub checksum_registry: Vec<RegistryEntry>,
}

/// The fingerprint bound to a URL: the first binding that carries it.
pub open spec fn registry_lookup(s: Seq<RegistryEntry>, url: Seq<char>) -> Option<RepoChecksum>
    decreases s.len(),
{
    if s.len() == 0 {
        None
    } else if s[0].url@ == url {
        Some(s[0].checksum)
    } else {
        registry_lookup(s.drop_first(), url)
    }
}

/// Replacing the first binding of a URL rebinds exactly that URL.
proof fn lemma_registry_update(s: Seq<RegistryEntry>, i: int, e: RegistryEntry)
    requires
        0 <= i < s.len(),
        s[i].url@ == e.url@,
        forall|j: int| 0 <= j < i ==> (#[trigger] s[j].url@) != e.url@,
    ensures
        forall|u: Seq<char>|
            #![trigger registry_lookup(s.update(i, e), u)]
            registry_lookup(s.update(i, e), u) == if u == e.url@ {
                Some(e.checksum)
            } else {
                registry_lookup(s, u)
            },
    decreases i,
{
    let t = s.update(i, e);
    if i == 0 {
        assert(t[0] == e);
        assert(t.drop_first() =~= s.drop_first());
        assert forall|u: Seq<char>| #[trigger] registry_lookup(t, u) == (if u == e.url@ {
            Some(e.checksum)
        } else {
            registry_lookup(s, u)
        }) by {
            if u != e.url@ {
                assert(s[0].url@ != u);
            }
        }
    } else {
        assert(t[0] == s[0]);
        assert(t.drop_first() =~= s.drop_first().update(i - 1, e));
        assert(s.drop_first()[i - 1] == s[i]);
        assert forall|j: int| 0 <= j < i - 1 implies (#[trigger] s.drop_first()[j].url@)
            != e.url@ by {
            assert(s.drop_first()[j] == s[j + 1]);
        }
        lemma_registry_update(s.drop_first(), i - 1, e);
        assert forall|u: Seq<char>| #[trigger] registry_lookup(t, u) == (if u == e.url@ {
            Some(e.checksum)
        } else {
            registry_lookup(s, u)
        }) by {
            assert(registry_lookup(s.drop_first().update(i - 1, e), u) == if u == e.url@ {
                Some(e.checksum)
            } else {
                registry_lookup(s.drop_first(), u)
            });
            assert(s[0].url@ != e.url@);
        }
    }
}

/// Appending a binding for a URL with no prior binding adds exactly
/// that binding.
proof fn lemma_registry_push(s: Seq<RegistryEntry>, e: RegistryEntry)
    requires
        registry_lookup(s, e.url@).is_none(),
    ensures
        forall|u: Seq<char>|
            #![trigger registry_lookup(s.push(e), u)]
            registry_lookup(s.push(e), u) == if u == e.url@ {
                Some(e.checksum)
            } else {
                registry_lookup(s, u)
            },
    decreases s.len(),
{
    if s.len() == 0 {
        assert forall|u: Seq<char>| #[trigger] registry_lookup(s.push(e), u) == (if u == e.url@ {
            Some(e.checksum)
        } else {
            registry_lookup(s, u)
        }) by {
            assert(s.push(e).len() == 1);
            assert(s.push(e)[0] == e);
            assert(s.push(e).drop_first() =~= Seq::<RegistryEntry>::empty());
            assert(registry_lookup(s, u).is_none());
            if u == e.url@ {
                assert(registry_lookup(s.push(e), u) == Some(e.checksum));
            } else {
                assert(registry_lookup(s.push(e), u) == registry_lookup(
                    s.push(e).drop_first(),
                    u,
                ));
                assert(registry_lookup(s.push(e).drop_first(), u).is_none());
            }
        }
    } else {
        lemma_registry_push(s.drop_first(), e);
        assert forall|u: Seq<char>| #[trigger] registry_lookup(s.push(e), u) == (if u == e.url@ {
            Some(e.checksum)
        } else {
            registry_lookup(s, u)
        }) by {
            assert(s.push(e)[0] == s[0]);
            assert(s.push(e).drop_first() =~= s.drop_first().push(e));
            assert(registry_lookup(s.drop_first().push(e), u) == if u == e.url@ {
                Some(e.checksum)
            } else {
                registry_lookup(s.drop_first(), u)
            });
        }
    }
}

impl GitFetchConfig {
    /// The empty state: no records, no fingerprints.
    pub fn new() -> (c: GitFetchConfig)
        ensures
            c.installed_repos@ =~= Seq::<InstalledRepo>::empty(),
            c.checksum_registry@ =~= Seq::<RegistryEntry>::empty(),
    {
        GitFetchConfig { installed_repos: Vec::new(), checksum_registry: Vec::new() }
    }

    /// Appends one acquisition record; existing records and the
    /// fingerprint registry are untouched.
    pub fn add_repo(
        &mut self,
        name: String,
        url: String,
        path: String,
        commit_hash: Option<String>,
        verified: bool,
        workspace_path: Option<String>,
    )
        ensures
            final(self).installed_repos@ == old(self).installed_repos@.push(
                InstalledRepo { name, url, path, commit_hash, verified, workspace_path },
            ),
            final(self).checksum_registry@ == old(self).checksum_registry@,
    {
        self.installed_repos.push(
            InstalledRepo { name, url, path, commit_hash, verified, workspace_path },
        );
    }

    /// Binds `repo_url` to `checksum`: replaces the URL's binding if
    /// one exists, appends one otherwise.  Every other URL keeps its
    /// binding, and the acquisition records are untouched.
    pub fn add_checksum(&mut self, repo_url: String, checksum: RepoChecksum)
        ensures
            final(self).installed_repos@ == old(self).installed_repos@,
            forall|u: Seq<char>|
                #![trigger registry_lookup(final(self).checksum_registry@, u)]
                registry_lookup(final(self).checksum_registry@, u) == if u == repo_url@ {
                    Some(checksum)
                } else {
                    registry_lookup(old(self).checksum_registry@, u)
                },
    {
        let ghost orig = self.checksum_registry@;
        let ghost url0 = repo_url@;
        let ghost c0 = checksum;
        let n = self.checksum_registry.len();
        let mut i: usize = 0;
        while i < n
            invariant
                n == self.checksum_registry@.len(),
                0 <= i <= n,
                self.checksum_registry@ == orig,
                orig == old(self).checksum_registry@,
                self.installed_repos@ == old(self).installed_repos@,
                repo_url@ == url0,
                checksum == c0,
                forall|j: int| 0 <= j < i ==> (#[trigger] orig[j].url@) != url0,
            decreases n - i,
        {
            if self.checksum_registry[i].url.eq(&repo_url) {
                let entry = RegistryEntry { url: repo_url, checksum };
                proof {
                    assert(orig[i as int].url@ == entry.url@);
                }
                let ghost e = entry;
                proof {
                    assert(e.url@ == url0);
                    assert(e.checksum == c0);
                }
                self.checksum_registry.remove(i);
                self.checksum_registry.insert(i, entry);
                proof {
                    assert(self.checksum_registry@ =~= orig.update(i as int, e));
                    lemma_registry_update(orig, i as int, e);
                    assert forall|u: Seq<char>|
                        #![trigger registry_lookup(self.checksum_registry@, u)]
                        registry_lookup(self.checksum_registry@, u) == (if u == e.url@ {
                            Some(e.checksum)
                        } else {
                            registry_lookup(orig, u)
                        }) by {
                        assert(registry_lookup(orig.update(i as int, e), u) == if u == e.url@ {
                            Some(e.checksum)
                        } else {
                            registry_lookup(orig, u)
                        });
                    }
                }
                return ;
            }
            i = i + 1;
        }
        let entry = RegistryEntry { url: repo_url, checksum };
        let ghost e = entry;
        proof {
            assert(e.url@ == url0);
            assert(e.checksum == c0);
            assert forall|u: Seq<char>| registry_lookup(orig, u).is_some() implies (exists|j: int|
                0 <= j < orig.len() && (#[trigger] orig[j].url@) == u) by {
                lemma_registry_lookup_some(orig, u);
            }
            assert(registry_lookup(orig, e.url@).is_none()) by {
                if registry_lookup(orig, e.url@).is_some() {
                    let j = choose|j: int|
                        0 <= j < orig.len() && (#[trigger] orig[j].url@) == e.url@;
                }
            }
            lemma_registry_push(orig, e);
        }
        self.checksum_registry.push(entry);
        proof {
            assert(self.checksum_registry@ =~= orig.push(e));
            assert forall|u: Seq<char>|
                #![trigger registry_lookup(self.checksum_registry@, u)]
                registry_lookup(self.checksum_registry@, u) == (if u == e.url@ {
                    Some(e.checksum)
                } else {
                    registry_lookup(orig, u)
                }) by {
                assert(registry_lookup(orig.push(e), u) == if u == e.url@ {
                    Some(e.checksum)
                } else {
                    registry_lookup(orig, u)
                });
            }
        }
    }

    /// The fingerprint bound to `repo_url`, if one is known.
    pub fn get_checksum(&self, repo_url: &str) -> (r: Option<&RepoChecksum>)
        ensures
            match r {
                Some(c) => registry_lookup(self.checksum_registry@, repo_url@) == Some(*c),
                None => registry_lookup(self.checksum_registry@, repo_url@).is_none(),
            },
    {
        let key = repo_url.to_owned();
        let n = self.checksum_registry.len();
        let mut i: usize = 0;
        proof {
            assert(self.checksum_registry@.skip(0) =~= self.checksum_registry@);
        }
        while i < n
            invariant
                n == self.checksum_registry@.len(),
                key@ == repo_url@,
                0 <= i <= n,
                registry_lookup(self.checksum_registry@, repo_url@) == registry_lookup(
                    self.checksum_registry@.skip(i as int),
                    repo_url@,
                ),
            decreases n - i,
        {
            let ghost tail = self.checksum_registry@.skip(i as int);
            proof {
                assert(tail[0] == self.checksum_registry@[i as int]);
                assert(tail.drop_first() =~= self.checksum_registry@.skip(i + 1));
            }
            if self.checksum_registry[i].url.eq(&key) {
                return Some(&self.checksum_registry[i].checksum);
            }
            i = i + 1;
        }
        proof {
            assert(self.checksum_registry@.skip(n as int) =~= Seq::<RegistryEntry>::empty());
        }
        None
    }
}

/// A URL with a binding occurs among the entries.
proof fn lemma_registry_lookup_some(s: Seq<RegistryEntry>, u: Seq<char>)
    requires
        registry_lookup(s, u).is_some(),
    ensures
        exists|j: int| 0 <= j < s.len() && (#[trigger] s[j].url@) == u,
    decreases s.len(),
{
    if s.len() > 0 {
        if s[0].url@ == u {
            assert(s[0].url@ == u);
        } else {
            lemma_registry_lookup_some(s.drop_first(), u);
            let j = choose|j: int|
                0 <= j < s.drop_first().len() && (#[trigger] s.drop_first()[j].url@) == u;
            assert(s[j + 1].url@ == u);
        }
    }
}

} // verus!
