//! The checksum engine: per-file digests, the deterministic aggregate
//! fingerprint of a tree, and verification of a tree against an
//! expected fingerprint.
//!
//! Callers hand the engine the regular files of a tree as plain
//! `(path, contents)` values; the engine owes them a fingerprint whose
//! aggregate digest does not depend on the order of that list.

use vstd::prelude::*;
use vstd::slice::slice_to_vec;
use vstd::string::StringSliceAdditionalSpecFns;
use sha2::Digest;
use crate::bytes::{lex_le, lex_lt, bytes_eq, bytes_lex_le, lemma_lex_le_total,
    lemma_lex_le_antisymmetric, lemma_lex_le_transitive, lemma_lex_le_refl};
use crate::types::{TreeFile, FileDigest, RepoChecksum, VerificationReport};

verus! {

/// The SHA-256 digest of a byte sequence.  The digest is a pure
/// function of the input, but its definition is not restated here; the
/// trusted wrapper below ties the name to the outside implementation.
pub uninterp spec fn sha256_digest_of(data: Seq<u8>) -> Seq<u8>;

/// Relies on `sha2::Sha256` (through `digest::Digest::digest`): the
/// one-shot SHA-256 digest of the input, a function of the input bytes
/// alone, 32 bytes long.
#[verifier::external_body]
fn sha256_digest(data: &[u8]) -> (r: Vec<u8>)
    ensures
        r@ == sha256_digest_of(data@),
        r@.len() == 32,
{
    sha2::Sha256::digest(data).to_vec()
}

/// Relies on `chrono::Utc::now` and `to_rfc3339` for a wall-clock
/// timestamp.  The result depends on the clock, so nothing is assumed
/// of it.
#[verifier::external_body]
fn current_timestamp() -> String {
    chrono::Utc::now().to_rfc3339()
}

/// The ASCII code of the lower-case hex digit for a value below 16.
pub open spec fn hex_digit(n: u8) -> u8
    recommends
        n < 16,
{
    if n < 10 {
        (48 + n) as u8
    } else {
        (87 + n) as u8
    }
}

/// Lower-case hex encoding of a byte sequence, two digits per byte.
pub open spec fn hex_bytes(s: Seq<u8>) -> Seq<u8>
    decreases s.len(),
{
    if s.len() == 0 {
        Seq::empty()
    } else {
        seq![hex_digit(s[0] / 16), hex_digit(s[0] % 16)] + hex_bytes(s.drop_first())
    }
}

/// Encodes a byte slice as lower-case hex.
fn to_hex(s: &[u8]) -> (r: Vec<u8>)
    ensures
        r@ == hex_bytes(s@),
        r@.len() == 2 * s@.len(),
{
    let n = s.len();
    let mut out: Vec<u8> = Vec::new();
    let mut i: usize = 0;
    proof {
        assert(s@.skip(0) =~= s@);
        assert(out@ + hex_bytes(s@) =~= hex_bytes(s@));
    }
    while i < n
        invariant
            n == s@.len(),
            0 <= i <= n,
            out@.len() == 2 * i,
            hex_bytes(s@) == out@ + hex_bytes(s@.skip(i as int)),
        decreases n - i,
    {
        let b = s[i];
        let hi = b / 16;
        let lo = b % 16;
        let ghost prev = out@;
        if hi < 10 {
            out.push(48 + hi);
        } else {
            out.push(87 + hi);
        }
        if lo < 10 {
            out.push(48 + lo);
        } else {
            out.push(87 + lo);
        }
        proof {
            let tail = s@.skip(i as int);
            assert(tail[0] == s@[i as int]);
            assert(tail.drop_first() =~= s@.skip(i + 1));
            assert(hex_bytes(tail) == seq![hex_digit(tail[0] / 16), hex_digit(tail[0] % 16)]
                + hex_bytes(tail.drop_first()));
            assert(out@ =~= prev + seq![hex_digit(s@[i as int] / 16), hex_digit(s@[i as int] % 16)]);
            assert(hex_bytes(s@) == out@ + hex_bytes(s@.skip(i + 1)));
        }
        i = i + 1;
    }
    proof {
        assert(s@.skip(n as int) =~= Seq::<u8>::empty());
        assert(hex_bytes(s@) =~= out@);
    }
    out
}

/// The recorded digest of one file's contents: lower-case hex of its
/// SHA-256 digest.
pub open spec fn file_digest_of(data: Seq<u8>) -> Seq<u8> {
    hex_bytes(sha256_digest_of(data))
}

/// Digest of a single file's contents, as 64 lower-case hex digits.
pub fn calculate_file_checksum(data: &[u8]) -> (r: Vec<u8>)
    ensures
        r@ == file_digest_of(data@),
        r@.len() == 64,
{
    let d = sha256_digest(data);
    to_hex(d.as_slice())
}

/// No two files of the list share a path.
pub open spec fn unique_paths(files: Seq<TreeFile>) -> bool {
    forall|i: int, j: int| 0 <= i < j < files.len() ==> files[i].path@ != files[j].path@
}

/// No two fingerprint entries share a path.
pub open spec fn unique_entry_paths(entries: Seq<FileDigest>) -> bool {
    forall|i: int, j: int| 0 <= i < j < entries.len() ==> entries[i].path@ != entries[j].path@
}

/// Fingerprint entries in strictly ascending path order.
pub open spec fn sorted_strict(entries: Seq<FileDigest>) -> bool {
    forall|i: int|
        0 <= i && i + 1 < entries.len() ==> lex_lt(
            #[trigger] entries[i].path@,
            entries[i + 1].path@,
        )
}

/// The mapping (path -> contents) described by a file list.
pub open spec fn file_map(files: Seq<TreeFile>) -> Map<Seq<u8>, Seq<u8>>
    decreases files.len(),
{
    if files.len() == 0 {
        Map::empty()
    } else {
        file_map(files.drop_last()).insert(files.last().path@, files.last().data@)
    }
}

/// The mapping (path -> digest of contents) described by a file list.
pub open spec fn digest_map(files: Seq<TreeFile>) -> Map<Seq<u8>, Seq<u8>>
    decreases files.len(),
{
    if files.len() == 0 {
        Map::empty()
    } else {
        digest_map(files.drop_last()).insert(
            files.last().path@,
            file_digest_of(files.last().data@),
        )
    }
}

/// The mapping (path -> digest) described by fingerprint entries.
pub open spec fn entries_map(entries: Seq<FileDigest>) -> Map<Seq<u8>, Seq<u8>>
    decreases entries.len(),
{
    if entries.len() == 0 {
        Map::empty()
    } else {
        entries_map(entries.drop_last()).insert(
            entries.last().path@,
            entries.last().digest@,
        )
    }
}

/// The (path, digest) views of a list of fingerprint entries.
pub open spec fn entry_views(entries: Seq<FileDigest>) -> Seq<(Seq<u8>, Seq<u8>)> {
    entries.map_values(|e: FileDigest| (e.path@, e.digest@))
}

/// A key is in `entries_map` exactly when some entry carries that path.
pub proof fn lemma_entries_map_dom(entries: Seq<FileDigest>)
    ensures
        forall|p: Seq<u8>|
            entries_map(entries).contains_key(p) <==> (exists|i: int|
                0 <= i < entries.len() && #[trigger] entries[i].path@ == p),
    decreases entries.len(),
{
    if entries.len() > 0 {
        let sub = entries.drop_last();
        lemma_entries_map_dom(sub);
        assert forall|p: Seq<u8>| entries_map(entries).contains_key(p) implies (exists|i: int|
            0 <= i < entries.len() && #[trigger] entries[i].path@ == p) by {
            if p == entries.last().path@ {
                assert(entries[entries.len() - 1].path@ == p);
            } else {
                assert(entries_map(sub).contains_key(p));
                let i = choose|i: int| 0 <= i < sub.len() && #[trigger] sub[i].path@ == p;
                assert(sub[i] == entries[i]);
                assert(entries[i].path@ == p);
            }
        }
        assert forall|p: Seq<u8>| (exists|i: int|
            0 <= i < entries.len() && #[trigger] entries[i].path@ == p) implies entries_map(
            entries,
        ).contains_key(p) by {
            let i = choose|i: int| 0 <= i < entries.len() && #[trigger] entries[i].path@ == p;
            if i == entries.len() - 1 {
                assert(p == entries.last().path@);
            } else {
                assert(sub[i] == entries[i]);
                assert(sub[i].path@ == p);
                assert(entries_map(sub).contains_key(p));
            }
        }
    }
}

/// With unique paths, each entry's path maps to that entry's digest.
pub proof fn lemma_entries_map_at(entries: Seq<FileDigest>, i: int)
    requires
        unique_entry_paths(entries),
        0 <= i < entries.len(),
    ensures
        entries_map(entries).contains_key(entries[i].path@),
        entries_map(entries)[entries[i].path@] == entries[i].digest@,
    decreases entries.len(),
{
    if i == entries.len() - 1 {
    } else {
        assert(entries[i].path@ != entries.last().path@);
        assert(entries.drop_last()[i] == entries[i]);
        lemma_entries_map_at(entries.drop_last(), i);
    }
}

/// A key is in `digest_map` exactly when some file carries that path.
pub proof fn lemma_digest_map_dom(files: Seq<TreeFile>)
    ensures
        forall|p: Seq<u8>|
            digest_map(files).contains_key(p) <==> (exists|i: int|
                0 <= i < files.len() && #[trigger] files[i].path@ == p),
    decreases files.len(),
{
    if files.len() > 0 {
        let sub = files.drop_last();
        lemma_digest_map_dom(sub);
        assert forall|p: Seq<u8>| digest_map(files).contains_key(p) implies (exists|i: int|
            0 <= i < files.len() && #[trigger] files[i].path@ == p) by {
            if p == files.last().path@ {
                assert(files[files.len() - 1].path@ == p);
            } else {
                assert(digest_map(sub).contains_key(p));
                let i = choose|i: int| 0 <= i < sub.len() && #[trigger] sub[i].path@ == p;
                assert(sub[i] == files[i]);
                assert(files[i].path@ == p);
            }
        }
        assert forall|p: Seq<u8>| (exists|i: int|
            0 <= i < files.len() && #[trigger] files[i].path@ == p) implies digest_map(
            files,
        ).contains_key(p) by {
            let i = choose|i: int| 0 <= i < files.len() && #[trigger] files[i].path@ == p;
            if i == files.len() - 1 {
                assert(p == files.last().path@);
            } else {
                assert(sub[i] == files[i]);
                assert(sub[i].path@ == p);
                assert(digest_map(sub).contains_key(p));
            }
        }
    }
}

/// With unique paths, each file's path maps to that file's digest.
pub proof fn lemma_digest_map_at(files: Seq<TreeFile>, i: int)
    requires
        unique_paths(files),
        0 <= i < files.len(),
    ensures
        digest_map(files).contains_key(files[i].path@),
        digest_map(files)[files[i].path@] == file_digest_of(files[i].data@),
    decreases files.len(),
{
    if i == files.len() - 1 {
    } else {
        assert(files[i].path@ != files.last().path@);
        assert(files.drop_last()[i] == files[i]);
        lemma_digest_map_at(files.drop_last(), i);
    }
}

/// `digest_map` is determined pointwise by `file_map`.
proof fn lemma_digest_map_of_file_map(files: Seq<TreeFile>)
    ensures
        forall|p: Seq<u8>|
            digest_map(files).contains_key(p) <==> file_map(files).contains_key(p),
        forall|p: Seq<u8>|
            file_map(files).contains_key(p) ==> #[trigger] digest_map(files)[p] == file_digest_of(
                file_map(files)[p],
            ),
    decreases files.len(),
{
    if files.len() > 0 {
        let sub = files.drop_last();
        lemma_digest_map_of_file_map(sub);
        let p0 = files.last().path@;
        assert forall|p: Seq<u8>|
            digest_map(files).contains_key(p) <==> file_map(files).contains_key(p) by {
            assert(digest_map(files).contains_key(p) == (p == p0 || digest_map(sub).contains_key(
                p,
            )));
            assert(file_map(files).contains_key(p) == (p == p0 || file_map(sub).contains_key(p)));
        }
        assert forall|p: Seq<u8>| file_map(files).contains_key(p) implies #[trigger] digest_map(
            files,
        )[p] == file_digest_of(file_map(files)[p]) by {
            if p == p0 {
                assert(digest_map(files)[p] == file_digest_of(files.last().data@));
                assert(file_map(files)[p] == files.last().data@);
            } else {
                assert(digest_map(files)[p] == digest_map(sub)[p]);
                assert(file_map(files)[p] == file_map(sub)[p]);
                assert(file_map(sub).contains_key(p));
            }
        }
    }
}

/// Trees holding the same (path, contents) mapping have the same digest
/// mapping, whatever order their files were listed in.
pub proof fn lemma_digest_map_congruence(files1: Seq<TreeFile>, files2: Seq<TreeFile>)
    requires
        file_map(files1) == file_map(files2),
    ensures
        digest_map(files1) == digest_map(files2),
{
    lemma_digest_map_of_file_map(files1);
    lemma_digest_map_of_file_map(files2);
    assert(digest_map(files1) =~= digest_map(files2));
}

/// In a strictly sorted list, earlier paths are strictly below later ones.
pub proof fn lemma_sorted_lt(entries: Seq<FileDigest>, i: int, j: int)
    requires
        sorted_strict(entries),
        0 <= i < j < entries.len(),
    ensures
        lex_lt(entries[i].path@, entries[j].path@),
    decreases j - i,
{
    if j == i + 1 {
    } else {
        lemma_sorted_lt(entries, i, j - 1);
        let a = entries[i].path@;
        let b = entries[j - 1].path@;
        let c = entries[j].path@;
        lemma_lex_le_transitive(a, b, c);
        if a == c {
            lemma_lex_le_antisymmetric(a, b);
        }
    }
}

/// Strict sorting implies unique paths.
pub proof fn lemma_sorted_unique(entries: Seq<FileDigest>)
    requires
        sorted_strict(entries),
    ensures
        unique_entry_paths(entries),
{
    assert forall|i: int, j: int|
        0 <= i < j < entries.len() implies entries[i].path@ != entries[j].path@ by {
        lemma_sorted_lt(entries, i, j);
    }
}

/// Dropping the last entry removes exactly its key from the map.
proof fn lemma_entries_map_drop_last(entries: Seq<FileDigest>)
    requires
        unique_entry_paths(entries),
        entries.len() > 0,
    ensures
        entries_map(entries.drop_last()) == entries_map(entries).remove(entries.last().path@),
{
    let p = entries.last().path@;
    lemma_entries_map_dom(entries.drop_last());
    assert(!entries_map(entries.drop_last()).contains_key(p)) by {
        if entries_map(entries.drop_last()).contains_key(p) {
            let i = choose|i: int|
                0 <= i < entries.drop_last().len() && #[trigger] entries.drop_last()[i].path@ == p;
            assert(entries[i].path@ == entries[entries.len() - 1].path@);
        }
    }
    assert(entries_map(entries.drop_last()) =~= entries_map(entries).remove(p));
}

/// Strictly sorted entry lists are a canonical form: two of them with
/// the same (path -> digest) mapping are the same list.
pub proof fn lemma_sorted_canonical(e1: Seq<FileDigest>, e2: Seq<FileDigest>)
    requires
        sorted_strict(e1),
        sorted_strict(e2),
        entries_map(e1) == entries_map(e2),
    ensures
        entry_views(e1) == entry_views(e2),
    decreases e1.len(),
{
    lemma_entries_map_dom(e1);
    lemma_entries_map_dom(e2);
    lemma_sorted_unique(e1);
    lemma_sorted_unique(e2);
    if e1.len() == 0 {
        if e2.len() > 0 {
            assert(e2[0].path@ == e2[0].path@);
            assert(entries_map(e2).contains_key(e2[0].path@));
            assert(entries_map(e1).contains_key(e2[0].path@));
            assert(false);
        }
        assert(entry_views(e1) =~= entry_views(e2));
    } else if e2.len() == 0 {
        assert(e1[0].path@ == e1[0].path@);
        assert(entries_map(e1).contains_key(e1[0].path@));
        assert(entries_map(e2).contains_key(e1[0].path@));
        assert(false);
    } else {
        let n1 = e1.len() as int;
        let n2 = e2.len() as int;
        let p1 = e1.last().path@;
        let p2 = e2.last().path@;
        // p1 occurs in e2, so it is at most e2's last path; and conversely.
        assert(e1[n1 - 1].path@ == p1);
        assert(entries_map(e2).contains_key(p1));
        let i2 = choose|i: int| 0 <= i < n2 && #[trigger] e2[i].path@ == p1;
        if i2 < n2 - 1 {
            lemma_sorted_lt(e2, i2, n2 - 1);
        } else {
            lemma_lex_le_refl(p1);
        }
        assert(lex_le(p1, p2));
        assert(e2[n2 - 1].path@ == p2);
        assert(entries_map(e1).contains_key(p2));
        let i1 = choose|i: int| 0 <= i < n1 && #[trigger] e1[i].path@ == p2;
        if i1 < n1 - 1 {
            lemma_sorted_lt(e1, i1, n1 - 1);
        } else {
            lemma_lex_le_refl(p2);
        }
        assert(lex_le(p2, p1));
        lemma_lex_le_antisymmetric(p1, p2);
        assert(p1 == p2);
        lemma_entries_map_at(e1, n1 - 1);
        lemma_entries_map_at(e2, n2 - 1);
        assert(e1.last().digest@ == e2.last().digest@);
        lemma_entries_map_drop_last(e1);
        lemma_entries_map_drop_last(e2);
        assert forall|i: int| 0 <= i && i + 1 < e1.drop_last().len() implies lex_lt(
            #[trigger] e1.drop_last()[i].path@,
            e1.drop_last()[i + 1].path@,
        ) by {
            assert(e1.drop_last()[i] == e1[i]);
            assert(e1.drop_last()[i + 1] == e1[i + 1]);
        }
        assert forall|i: int| 0 <= i && i + 1 < e2.drop_last().len() implies lex_lt(
            #[trigger] e2.drop_last()[i].path@,
            e2.drop_last()[i + 1].path@,
        ) by {
            assert(e2.drop_last()[i] == e2[i]);
            assert(e2.drop_last()[i + 1] == e2[i + 1]);
        }
        lemma_sorted_canonical(e1.drop_last(), e2.drop_last());
        assert(entry_views(e1.drop_last()) =~= entry_views(e1).drop_last());
        assert(entry_views(e2.drop_last()) =~= entry_views(e2).drop_last());
        assert(entry_views(e1).len() == entry_views(e2).len());
        assert(entry_views(e1).last() == entry_views(e2).last());
        assert forall|i: int| 0 <= i < entry_views(e1).len() implies entry_views(e1)[i]
            == entry_views(e2)[i] by {
            if i < n1 - 1 {
                assert(entry_views(e1).drop_last()[i] == entry_views(e1)[i]);
                assert(entry_views(e2).drop_last()[i] == entry_views(e2)[i]);
            } else {
                assert(entry_views(e1)[i] == entry_views(e1).last());
                assert(entry_views(e2)[i] == entry_views(e2).last());
            }
        }
        assert(entry_views(e1) =~= entry_views(e2));
    }
}

/// Inserting an entry with a fresh path anywhere in the list adds
/// exactly that binding to the map.
proof fn lemma_entries_map_insert(s: Seq<FileDigest>, k: int, e: FileDigest)
    requires
        0 <= k <= s.len(),
        forall|j: int| 0 <= j < s.len() ==> (#[trigger] s[j].path@) != e.path@,
    ensures
        entries_map(s.insert(k, e)) == entries_map(s).insert(e.path@, e.digest@),
    decreases s.len(),
{
    let t = s.insert(k, e);
    if k == s.len() {
        assert(t.drop_last() =~= s);
        assert(t.last() == e);
    } else {
        assert(t.last() == s.last());
        assert(t.drop_last() =~= s.drop_last().insert(k, e));
        assert(forall|j: int|
            0 <= j < s.drop_last().len() ==> (#[trigger] s.drop_last()[j].path@) != e.path@);
        lemma_entries_map_insert(s.drop_last(), k, e);
        assert(s.last().path@ != e.path@);
        assert(entries_map(s.drop_last()).insert(e.path@, e.digest@).insert(
            s.last().path@,
            s.last().digest@,
        ) =~= entries_map(s.drop_last()).insert(s.last().path@, s.last().digest@).insert(
            e.path@,
            e.digest@,
        ));
    }
}

/// Inserts `e` into a sorted list, keeping it sorted; the map gains
/// exactly the binding of `e`.
fn insert_sorted(acc: &mut Vec<FileDigest>, e: FileDigest)
    requires
        sorted_strict(old(acc)@),
        forall|j: int| 0 <= j < old(acc)@.len() ==> (#[trigger] old(acc)@[j].path@) != e.path@,
    ensures
        sorted_strict(final(acc)@),
        final(acc)@.len() == old(acc)@.len() + 1,
        entries_map(final(acc)@) == entries_map(old(acc)@).insert(e.path@, e.digest@),
{
    let n = acc.len();
    let mut k: usize = 0;
    while k < n && !bytes_lex_le(e.path.as_slice(), acc[k].path.as_slice())
        invariant
            n == acc@.len(),
            0 <= k <= n,
            forall|j: int| 0 <= j < k ==> !lex_le(e.path@, #[trigger] acc@[j].path@),
        decreases n - k,
    {
        k = k + 1;
    }
    let ghost prev = acc@;
    proof {
        assert forall|j: int| 0 <= j < k implies lex_lt(#[trigger] prev[j].path@, e.path@) by {
            lemma_lex_le_total(e.path@, prev[j].path@);
        }
    }
    acc.insert(k, e);
    proof {
        lemma_entries_map_insert(prev, k as int, e);
        assert(acc@ == prev.insert(k as int, e));
        assert forall|i: int| 0 <= i && i + 1 < acc@.len() implies lex_lt(
            #[trigger] acc@[i].path@,
            acc@[i + 1].path@,
        ) by {
            if i + 1 < k {
                assert(acc@[i] == prev[i]);
                assert(acc@[i + 1] == prev[i + 1]);
            } else if i + 1 == k {
                assert(acc@[i] == prev[i]);
                assert(acc@[i + 1] == e);
            } else if i == k {
                assert(acc@[i] == e);
                assert(acc@[i + 1] == prev[i]);
                assert(lex_le(e.path@, prev[i].path@));
                assert(prev[i].path@ != e.path@);
            } else {
                assert(acc@[i] == prev[i - 1]);
                assert(acc@[i + 1] == prev[i]);
            }
        }
    }
}

/// Sorts fingerprint entries into strictly ascending path order; the
/// (path -> digest) mapping is unchanged.
fn sort_entries(v: Vec<FileDigest>) -> (r: Vec<FileDigest>)
    requires
        unique_entry_paths(v@),
    ensures
        sorted_strict(r@),
        r@.len() == v@.len(),
        entries_map(r@) == entries_map(v@),
{
    let ghost orig = v@;
    let mut rest = v;
    let mut out: Vec<FileDigest> = Vec::new();
    proof {
        assert(orig.take(0) =~= Seq::<FileDigest>::empty());
    }
    while rest.len() > 0
        invariant
            unique_entry_paths(orig),
            out@.len() + rest@.len() == orig.len(),
            rest@ == orig.skip(out@.len() as int),
            sorted_strict(out@),
            entries_map(out@) == entries_map(orig.take(out@.len() as int)),
        decreases rest@.len(),
    {
        let ghost i = out@.len() as int;
        let e = rest.remove(0);
        proof {
            assert(e == orig[i]);
            assert(rest@ =~= orig.skip(i + 1));
            lemma_entries_map_dom(out@);
            lemma_entries_map_dom(orig.take(i));
            assert forall|j: int| 0 <= j < out@.len() implies (#[trigger] out@[j].path@)
                != e.path@ by {
                assert(out@[j].path@ == out@[j].path@);
                assert(entries_map(out@).contains_key(out@[j].path@));
                assert(entries_map(orig.take(i)).contains_key(out@[j].path@));
                let l = choose|l: int|
                    0 <= l < orig.take(i).len() && #[trigger] orig.take(i)[l].path@
                        == out@[j].path@;
                assert(orig[l].path@ == out@[j].path@);
                assert(orig[l].path@ != orig[i].path@);
            }
        }
        insert_sorted(&mut out, e);
        proof {
            assert(orig.take(i + 1).drop_last() =~= orig.take(i));
            assert(orig.take(i + 1).last() == orig[i]);
            assert(entries_map(orig.take(i + 1)) == entries_map(orig.take(i)).insert(
                orig[i].path@,
                orig[i].digest@,
            ));
        }
    }
    proof {
        assert(orig.take(orig.len() as int) =~= orig);
    }
    out
}

/// Digests each file of the list, in order.
fn digest_entries(files: &Vec<TreeFile>) -> (r: Vec<FileDigest>)
    ensures
        r@.len() == files@.len(),
        forall|i: int|
            0 <= i < files@.len() ==> (#[trigger] r@[i].path@) == files@[i].path@ && r@[i].digest@
                == file_digest_of(files@[i].data@),
{
    let n = files.len();
    let mut out: Vec<FileDigest> = Vec::new();
    let mut i: usize = 0;
    while i < n
        invariant
            n == files@.len(),
            0 <= i <= n,
            out@.len() == i,
            forall|j: int|
                0 <= j < i ==> (#[trigger] out@[j].path@) == files@[j].path@ && out@[j].digest@
                    == file_digest_of(files@[j].data@),
        decreases n - i,
    {
        let f = &files[i];
        let path = slice_to_vec(f.path.as_slice());
        let digest = calculate_file_checksum(f.data.as_slice());
        out.push(FileDigest { path, digest });
        i = i + 1;
    }
    out
}

/// Entry lists that agree pointwise with a file list's paths and
/// digests describe that file list's digest map.
proof fn lemma_digest_entries_map(files: Seq<TreeFile>, entries: Seq<FileDigest>)
    requires
        entries.len() == files.len(),
        forall|i: int|
            0 <= i < files.len() ==> (#[trigger] entries[i].path@) == files[i].path@
                && entries[i].digest@ == file_digest_of(files[i].data@),
    ensures
        entries_map(entries) == digest_map(files),
    decreases files.len(),
{
    if files.len() > 0 {
        assert(forall|i: int|
            0 <= i < files.drop_last().len() ==> (#[trigger] entries.drop_last()[i].path@)
                == files.drop_last()[i].path@ && entries.drop_last()[i].digest@ == file_digest_of(
                files.drop_last()[i].data@,
            ));
        lemma_digest_entries_map(files.drop_last(), entries.drop_last());
        assert(entries.last().path@ == files.last().path@);
        assert(entries.last().digest@ == file_digest_of(files.last().data@));
    }
}

/// Concatenation of all (path, digest) pairs, in list order.
pub open spec fn concat_pairs(pv: Seq<(Seq<u8>, Seq<u8>)>) -> Seq<u8>
    decreases pv.len(),
{
    if pv.len() == 0 {
        Seq::empty()
    } else {
        pv[0].0 + pv[0].1 + concat_pairs(pv.drop_first())
    }
}

/// The aggregate digest owed for a list of fingerprint entries:
/// SHA-256 (hex) over the concatenation of every path and digest, in
/// list order.
pub open spec fn total_digest_of(entries: Seq<FileDigest>) -> Seq<u8> {
    hex_bytes(sha256_digest_of(concat_pairs(entry_views(entries))))
}

/// Appends all of `src` to `dst`.
fn push_all(dst: &mut Vec<u8>, src: &[u8])
    ensures
        final(dst)@ == old(dst)@ + src@,
{
    let n = src.len();
    let mut i: usize = 0;
    while i < n
        invariant
            n == src@.len(),
            0 <= i <= n,
            dst@ == old(dst)@ + src@.take(i as int),
        decreases n - i,
    {
        dst.push(src[i]);
        proof {
            assert(old(dst)@ + src@.take(i + 1) =~= (old(dst)@ + src@.take(i as int)).push(
                src@[i as int],
            ));
        }
        i = i + 1;
    }
    proof {
        assert(src@.take(n as int) =~= src@);
    }
}

/// Computes the integrity fingerprint of a tree.
///
/// The entries are the digests of exactly the given files, in strictly
/// ascending path order, and the aggregate digest is a function of the
/// sorted entries alone — two walks of the same tree in different
/// orders owe the same fingerprint (`lemma_fingerprint_deterministic`).
pub fn calculate_repo_checksums(
    files: &Vec<TreeFile>,
    repo_url: String,
    commit_hash: String,
) -> (r: RepoChecksum)
    requires
        unique_paths(files@),
    ensures
        sorted_strict(r.file_checksums@),
        entries_map(r.file_checksums@) == digest_map(files@),
        r.total_hash@ == total_digest_of(r.file_checksums@),
        r.repo_url@ == repo_url@,
        r.commit_hash@ == commit_hash@,
{
    let entries = digest_entries(files);
    proof {
        assert forall|i: int| 0 <= i < files@.len() implies (#[trigger] entries@[i].path@)
            == files@[i].path@ && entries@[i].digest@ == file_digest_of(files@[i].data@) by {
            assert(entries@[i].path@ == files@[i].path@);
        }
        lemma_digest_entries_map(files@, entries@);
        assert forall|i: int, j: int| 0 <= i < j < entries@.len() implies entries@[i].path@
            != entries@[j].path@ by {
            assert(entries@[i].path@ == files@[i].path@);
            assert(entries@[j].path@ == files@[j].path@);
        }
    }
    let sorted = sort_entries(entries);
    let n = sorted.len();
    let mut agg: Vec<u8> = Vec::new();
    let ghost views = entry_views(sorted@);
    let mut i: usize = 0;
    proof {
        assert(views.skip(0) =~= views);
        assert(agg@ + concat_pairs(views) =~= concat_pairs(views));
    }
    while i < n
        invariant
            n == sorted@.len(),
            0 <= i <= n,
            views == entry_views(sorted@),
            concat_pairs(views) == agg@ + concat_pairs(views.skip(i as int)),
        decreases n - i,
    {
        let ghost before = agg@;
        push_all(&mut agg, sorted[i].path.as_slice());
        push_all(&mut agg, sorted[i].digest.as_slice());
        proof {
            let tail = views.skip(i as int);
            assert(tail[0] == views[i as int]);
            assert(views[i as int] == (sorted@[i as int].path@, sorted@[i as int].digest@));
            assert(tail.drop_first() =~= views.skip(i + 1));
            assert(concat_pairs(tail) == tail[0].0 + tail[0].1 + concat_pairs(tail.drop_first()));
            assert(agg@ =~= before + sorted@[i as int].path@ + sorted@[i as int].digest@);
            assert(concat_pairs(views) =~= agg@ + concat_pairs(views.skip(i + 1)));
        }
        i = i + 1;
    }
    proof {
        assert(views.skip(n as int) =~= Seq::<(Seq<u8>, Seq<u8>)>::empty());
        assert(concat_pairs(views) =~= agg@);
    }
    let digest = sha256_digest(agg.as_slice());
    let total_hash = to_hex(digest.as_slice());
    let verified_at = current_timestamp();
    RepoChecksum { repo_url, commit_hash, file_checksums: sorted, total_hash, verified_at }
}

/// Two trees with identical (path, contents) pairs — whatever order
/// they were walked in — yield fingerprints with the same entries and
/// the same aggregate digest.
///
/// The entry lists and aggregate digests are quantified exactly as
/// `calculate_repo_checksums` promises them.
pub proof fn lemma_fingerprint_deterministic(
    files1: Seq<TreeFile>,
    files2: Seq<TreeFile>,
    e1: Seq<FileDigest>,
    e2: Seq<FileDigest>,
)
    requires
        file_map(files1) == file_map(files2),
        sorted_strict(e1),
        sorted_strict(e2),
        entries_map(e1) == digest_map(files1),
        entries_map(e2) == digest_map(files2),
    ensures
        entry_views(e1) == entry_views(e2),
        total_digest_of(e1) == total_digest_of(e2),
{
    lemma_digest_map_congruence(files1, files2);
    lemma_sorted_canonical(e1, e2);
}

/// Names that the tree walk leaves out: hidden entries, and the fixed
/// denylist of version-control metadata and language-tooling caches.
pub open spec fn spec_ignored_entry(name: Seq<u8>) -> bool {
    (name.len() > 0 && name[0] == 46) || name == ("node_modules").spec_bytes() || name == (
    "target").spec_bytes()
}

/// Decides whether a directory entry is left out of fingerprinting.
pub fn is_ignored_entry(name: &[u8]) -> (r: bool)
    ensures
        r == spec_ignored_entry(name@),
{
    if name.len() > 0 && name[0] == 46 {
        return true;
    }
    if bytes_eq(name, "node_modules".as_bytes()) {
        return true;
    }
    if bytes_eq(name, "target".as_bytes()) {
        return true;
    }
    false
}

/// Decides whether no two files of the list share a path.
pub fn paths_unique(files: &Vec<TreeFile>) -> (r: bool)
    ensures
        r == unique_paths(files@),
{
    let n = files.len();
    let mut i: usize = 0;
    while i < n
        invariant
            n == files@.len(),
            0 <= i <= n,
            forall|a: int, b: int| 0 <= a < b < i ==> files@[a].path@ != files@[b].path@,
        decreases n - i,
    {
        let mut j: usize = 0;
        while j < i
            invariant
                n == files@.len(),
                0 <= j <= i < n,
                forall|a: int, b: int| 0 <= a < b < i ==> files@[a].path@ != files@[b].path@,
                forall|a: int| 0 <= a < j ==> files@[a].path@ != files@[i as int].path@,
            decreases i - j,
        {
            if bytes_eq(files[j].path.as_slice(), files[i].path.as_slice()) {
                return false;
            }
            j = j + 1;
        }
        i = i + 1;
    }
    true
}

/// Decides whether a fingerprint's entries are in strictly ascending
/// path order, as every fingerprint this library computes is.
pub fn fingerprint_sorted(expected: &RepoChecksum) -> (r: bool)
    ensures
        r == sorted_strict(expected.file_checksums@),
{
    let n = expected.file_checksums.len();
    if n == 0 {
        return true;
    }
    let mut i: usize = 0;
    while i < n - 1
        invariant
            n == expected.file_checksums@.len(),
            n >= 1,
            0 <= i <= n - 1,
            forall|k: int|
                0 <= k < i ==> lex_lt(
                    (#[trigger] expected.file_checksums@[k]).path@,
                    expected.file_checksums@[k + 1].path@,
                ),
        decreases n - i,
    {
        let a = &expected.file_checksums[i];
        let b = &expected.file_checksums[i + 1];
        if !bytes_lex_le(a.path.as_slice(), b.path.as_slice()) {
            return false;
        }
        if bytes_eq(a.path.as_slice(), b.path.as_slice()) {
            return false;
        }
        i = i + 1;
    }
    true
}

/// One expected entry found intact in the current tree.
pub open spec fn entry_ok(e: FileDigest, m: Map<Seq<u8>, Seq<u8>>) -> bool {
    m.contains_key(e.path@) && m[e.path@] == e.digest@
}

/// One expected entry present in the current tree with a different digest.
pub open spec fn entry_modified(e: FileDigest, m: Map<Seq<u8>, Seq<u8>>) -> bool {
    m.contains_key(e.path@) && m[e.path@] != e.digest@
}

/// One expected entry absent from the current tree.
pub open spec fn entry_missing(e: FileDigest, m: Map<Seq<u8>, Seq<u8>>) -> bool {
    !m.contains_key(e.path@)
}

/// How many expected entries are found intact.
pub open spec fn count_ok(entries: Seq<FileDigest>, m: Map<Seq<u8>, Seq<u8>>) -> nat
    decreases entries.len(),
{
    if entries.len() == 0 {
        0
    } else {
        count_ok(entries.drop_last(), m) + if entry_ok(entries.last(), m) {
            1nat
        } else {
            0nat
        }
    }
}

/// How many expected entries are present but changed.
pub open spec fn count_modified(entries: Seq<FileDigest>, m: Map<Seq<u8>, Seq<u8>>) -> nat
    decreases entries.len(),
{
    if entries.len() == 0 {
        0
    } else {
        count_modified(entries.drop_last(), m) + if entry_modified(entries.last(), m) {
            1nat
        } else {
            0nat
        }
    }
}

/// How many expected entries are missing from the tree.
pub open spec fn count_missing(entries: Seq<FileDigest>, m: Map<Seq<u8>, Seq<u8>>) -> nat
    decreases entries.len(),
{
    if entries.len() == 0 {
        0
    } else {
        count_missing(entries.drop_last(), m) + if entry_missing(entries.last(), m) {
            1nat
        } else {
            0nat
        }
    }
}

/// How many files of the tree the expected mapping does not know.
pub open spec fn count_unexpected(files: Seq<TreeFile>, em: Map<Seq<u8>, Seq<u8>>) -> nat
    decreases files.len(),
{
    if files.len() == 0 {
        0
    } else {
        count_unexpected(files.drop_last(), em) + if !em.contains_key(files.last().path@) {
            1nat
        } else {
            0nat
        }
    }
}

/// Every expected entry is counted exactly once: as found intact, as
/// modified, or as missing.
pub proof fn lemma_counts_partition(entries: Seq<FileDigest>, m: Map<Seq<u8>, Seq<u8>>)
    ensures
        count_ok(entries, m) + count_modified(entries, m) + count_missing(entries, m)
            == entries.len(),
    decreases entries.len(),
{
    if entries.len() > 0 {
        lemma_counts_partition(entries.drop_last(), m);
    }
}

/// Finds the index of the entry carrying `path`, if any.
fn find_entry(entries: &Vec<FileDigest>, path: &[u8]) -> (r: Option<usize>)
    ensures
        match r {
            Some(i) => i < entries@.len() && entries@[i as int].path@ == path@,
            None => forall|i: int|
                0 <= i < entries@.len() ==> (#[trigger] entries@[i].path@) != path@,
        },
{
    let n = entries.len();
    let mut i: usize = 0;
    while i < n
        invariant
            n == entries@.len(),
            0 <= i <= n,
            forall|j: int| 0 <= j < i ==> (#[trigger] entries@[j].path@) != path@,
        decreases n - i,
    {
        if bytes_eq(entries[i].path.as_slice(), path) {
            return Some(i);
        }
        i = i + 1;
    }
    None
}

/// Diffs a tree against an expected fingerprint.
///
/// The expected entries are partitioned into found-intact (`verified`),
/// present-but-changed (`modified`) and expected-but-missing
/// (`missing`); files the fingerprint does not know are counted as
/// `unexpected`.  `all_match` holds exactly when nothing is modified,
/// missing or unexpected.  A revision drift between `current_commit`
/// and the recorded commit is only a warning and never affects
/// `all_match`.
pub fn verify_repo_checksums(
    files: &Vec<TreeFile>,
    expected: &RepoChecksum,
    current_commit: Option<&String>,
) -> (r: VerificationReport)
    requires
        unique_paths(files@),
        sorted_strict(expected.file_checksums@),
    ensures
        r.verified == count_ok(expected.file_checksums@, digest_map(files@)),
        r.modified == count_modified(expected.file_checksums@, digest_map(files@)),
        r.missing == count_missing(expected.file_checksums@, digest_map(files@)),
        r.unexpected == count_unexpected(files@, entries_map(expected.file_checksums@)),
        r.all_match == (r.modified == 0 && r.missing == 0 && r.unexpected == 0),
        r.commit_mismatch == match current_commit {
            Some(c) => c@ != expected.commit_hash@,
            None => false,
        },
{
    let cur = digest_entries(files);
    let ghost m = digest_map(files@);
    let ghost exp = expected.file_checksums@;
    let n = expected.file_checksums.len();
    let mut ok: usize = 0;
    let mut modified: usize = 0;
    let mut missing: usize = 0;
    let mut i: usize = 0;
    proof {
        assert(exp.take(0) =~= Seq::<FileDigest>::empty());
    }
    while i < n
        invariant
            n == exp.len(),
            exp == expected.file_checksums@,
            m == digest_map(files@),
            unique_paths(files@),
            cur@.len() == files@.len(),
            forall|j: int|
                0 <= j < files@.len() ==> (#[trigger] cur@[j].path@) == files@[j].path@
                    && cur@[j].digest@ == file_digest_of(files@[j].data@),
            0 <= i <= n,
            ok + modified + missing == i,
            ok == count_ok(exp.take(i as int), m),
            modified == count_modified(exp.take(i as int), m),
            missing == count_missing(exp.take(i as int), m),
        decreases n - i,
    {
        let e = &expected.file_checksums[i];
        proof {
            assert(exp.take(i + 1).drop_last() =~= exp.take(i as int));
            assert(exp.take(i + 1).last() == exp[i as int]);
        }
        match find_entry(&cur, e.path.as_slice()) {
            Some(j) => {
                proof {
                    assert(files@[j as int].path@ == e.path@);
                    lemma_digest_map_at(files@, j as int);
                    assert(m.contains_key(e.path@));
                    assert(m[e.path@] == cur@[j as int].digest@);
                }
                if bytes_eq(cur[j].digest.as_slice(), e.digest.as_slice()) {
                    proof {
                        assert(entry_ok(exp[i as int], m));
                    }
                    ok = ok + 1;
                } else {
                    proof {
                        assert(entry_modified(exp[i as int], m));
                    }
                    modified = modified + 1;
                }
            },
            None => {
                proof {
                    lemma_digest_map_dom(files@);
                    assert(!m.contains_key(e.path@)) by {
                        if m.contains_key(e.path@) {
                            let l = choose|l: int|
                                0 <= l < files@.len() && #[trigger] files@[l].path@ == e.path@;
                            assert(cur@[l].path@ == e.path@);
                        }
                    }
                    assert(entry_missing(exp[i as int], m));
                }
                missing = missing + 1;
            },
        }
        i = i + 1;
    }
    proof {
        assert(exp.take(n as int) =~= exp);
    }
    let ghost em = entries_map(exp);
    let nf = files.len();
    let mut unexpected: usize = 0;
    let mut k: usize = 0;
    proof {
        assert(files@.take(0) =~= Seq::<TreeFile>::empty());
    }
    while k < nf
        invariant
            nf == files@.len(),
            em == entries_map(expected.file_checksums@),
            0 <= k <= nf,
            unexpected <= k,
            unexpected == count_unexpected(files@.take(k as int), em),
        decreases nf - k,
    {
        let f = &files[k];
        proof {
            assert(files@.take(k + 1).drop_last() =~= files@.take(k as int));
            assert(files@.take(k + 1).last() == files@[k as int]);
            lemma_entries_map_dom(expected.file_checksums@);
        }
        match find_entry(&expected.file_checksums, f.path.as_slice()) {
            Some(j) => {
                proof {
                    assert(expected.file_checksums@[j as int].path@ == f.path@);
                    assert(em.contains_key(f.path@));
                }
            },
            None => {
                proof {
                    assert(!em.contains_key(f.path@)) by {
                        if em.contains_key(f.path@) {
                            let l = choose|l: int|
                                0 <= l < expected.file_checksums@.len()
                                    && #[trigger] expected.file_checksums@[l].path@ == f.path@;
                        }
                    }
                }
                unexpected = unexpected + 1;
            },
        }
        k = k + 1;
    }
    proof {
        assert(files@.take(nf as int) =~= files@);
    }
    let all_match = modified == 0 && missing == 0 && unexpected == 0;
    let commit_mismatch = match current_commit {
        Some(c) => !c.eq(&expected.commit_hash),
        None => false,
    };
    VerificationReport { verified: ok, modified, missing, unexpected, all_match, commit_mismatch }
}

/// Counts entries found intact when all are intact except possibly the
/// one at `j` (`j == -1` meaning: all intact).
proof fn lemma_count_ok_flags(entries: Seq<FileDigest>, m: Map<Seq<u8>, Seq<u8>>, j: int)
    requires
        -1 <= j < entries.len(),
        forall|k: int| 0 <= k < entries.len() ==> (entry_ok(#[trigger] entries[k], m) <==> k != j),
    ensures
        count_ok(entries, m) == if j >= 0 {
            entries.len() - 1
        } else {
            entries.len() as int
        },
    decreases entries.len(),
{
    if entries.len() > 0 {
        let sub = entries.drop_last();
        assert(forall|k: int| 0 <= k < sub.len() ==> sub[k] == entries[k]);
        assert(entries.last() == entries[entries.len() - 1]);
        if j == entries.len() - 1 {
            lemma_count_ok_flags(sub, m, -1);
        } else {
            lemma_count_ok_flags(sub, m, j);
        }
    }
}

/// Counts changed entries when exactly the entry at `j` is changed
/// (`j == -1` meaning: none is).
proof fn lemma_count_modified_flags(entries: Seq<FileDigest>, m: Map<Seq<u8>, Seq<u8>>, j: int)
    requires
        -1 <= j < entries.len(),
        forall|k: int|
            0 <= k < entries.len() ==> (entry_modified(#[trigger] entries[k], m) <==> k == j),
    ensures
        count_modified(entries, m) == if j >= 0 {
            1int
        } else {
            0int
        },
    decreases entries.len(),
{
    if entries.len() > 0 {
        let sub = entries.drop_last();
        assert(forall|k: int| 0 <= k < sub.len() ==> sub[k] == entries[k]);
        assert(entries.last() == entries[entries.len() - 1]);
        if j == entries.len() - 1 {
            lemma_count_modified_flags(sub, m, -1);
        } else {
            lemma_count_modified_flags(sub, m, j);
        }
    }
}

/// Counts missing entries when exactly the entry at `j` is missing
/// (`j == -1` meaning: none is).
proof fn lemma_count_missing_flags(entries: Seq<FileDigest>, m: Map<Seq<u8>, Seq<u8>>, j: int)
    requires
        -1 <= j < entries.len(),
        forall|k: int|
            0 <= k < entries.len() ==> (entry_missing(#[trigger] entries[k], m) <==> k == j),
    ensures
        count_missing(entries, m) == if j >= 0 {
            1int
        } else {
            0int
        },
    decreases entries.len(),
{
    if entries.len() > 0 {
        let sub = entries.drop_last();
        assert(forall|k: int| 0 <= k < sub.len() ==> sub[k] == entries[k]);
        assert(entries.last() == entries[entries.len() - 1]);
        if j == entries.len() - 1 {
            lemma_count_missing_flags(sub, m, -1);
        } else {
            lemma_count_missing_flags(sub, m, j);
        }
    }
}

/// Counts unknown files when exactly the file at `j` is unknown to the
/// expected mapping (`j == -1` meaning: none is).
proof fn lemma_count_unexpected_flags(files: Seq<TreeFile>, em: Map<Seq<u8>, Seq<u8>>, j: int)
    requires
        -1 <= j < files.len(),
        forall|k: int|
            0 <= k < files.len() ==> (!em.contains_key((#[trigger] files[k]).path@) <==> k == j),
    ensures
        count_unexpected(files, em) == if j >= 0 {
            1int
        } else {
            0int
        },
    decreases files.len(),
{
    if files.len() > 0 {
        let sub = files.drop_last();
        assert(forall|k: int| 0 <= k < sub.len() ==> sub[k] == files[k]);
        assert(files.last() == files[files.len() - 1]);
        if j == files.len() - 1 {
            lemma_count_unexpected_flags(sub, em, -1);
        } else {
            lemma_count_unexpected_flags(sub, em, j);
        }
    }
}

/// Verifying a tree against its own fingerprint is a full match: every
/// entry is found intact, nothing is modified, missing or unexpected.
pub proof fn lemma_verify_round_trip(files: Seq<TreeFile>, entries: Seq<FileDigest>)
    requires
        unique_paths(files),
        sorted_strict(entries),
        entries_map(entries) == digest_map(files),
    ensures
        count_ok(entries, digest_map(files)) == entries.len(),
        count_modified(entries, digest_map(files)) == 0,
        count_missing(entries, digest_map(files)) == 0,
        count_unexpected(files, entries_map(entries)) == 0,
{
    let m = digest_map(files);
    lemma_sorted_unique(entries);
    assert forall|k: int| 0 <= k < entries.len() implies entry_ok(#[trigger] entries[k], m)
        && !entry_modified(entries[k], m) && !entry_missing(entries[k], m) by {
        lemma_entries_map_at(entries, k);
    }
    lemma_count_ok_flags(entries, m, -1);
    lemma_count_modified_flags(entries, m, -1);
    lemma_count_missing_flags(entries, m, -1);
    assert forall|k: int| 0 <= k < files.len() implies entries_map(entries).contains_key(
        (#[trigger] files[k]).path@,
    ) by {
        lemma_digest_map_at(files, k);
    }
    lemma_count_unexpected_flags(files, entries_map(entries), -1);
}

/// Changing the contents of exactly one tracked file — to contents
/// whose digest differs — changes that path's recorded digest, leaves
/// every other path's digest alone, and makes verification report
/// exactly one modified entry and nothing else.
///
/// That the new digest differs is a premise: it restates SHA-256's
/// collision resistance for this pair of contents, which is not proved
/// here.
pub proof fn lemma_single_modification(
    files: Seq<TreeFile>,
    files2: Seq<TreeFile>,
    entries: Seq<FileDigest>,
    i: int,
)
    requires
        unique_paths(files),
        sorted_strict(entries),
        entries_map(entries) == digest_map(files),
        0 <= i < files.len(),
        files2.len() == files.len(),
        files2[i].path@ == files[i].path@,
        file_digest_of(files2[i].data@) != file_digest_of(files[i].data@),
        forall|j: int|
            0 <= j < files.len() && j != i ==> (#[trigger] files2[j]).path@ == files[j].path@
                && files2[j].data@ == files[j].data@,
    ensures
        digest_map(files2)[files[i].path@] != digest_map(files)[files[i].path@],
        forall|p: Seq<u8>|
            digest_map(files).contains_key(p) && p != files[i].path@
                ==> #[trigger] digest_map(files2)[p] == digest_map(files)[p],
        count_modified(entries, digest_map(files2)) == 1,
        count_ok(entries, digest_map(files2)) == entries.len() - 1,
        count_missing(entries, digest_map(files2)) == 0,
        count_unexpected(files2, entries_map(entries)) == 0,
{
    let p0 = files[i].path@;
    let m = digest_map(files);
    let m2 = digest_map(files2);
    assert(unique_paths(files2)) by {
        assert forall|a: int, b: int| 0 <= a < b < files2.len() implies files2[a].path@
            != files2[b].path@ by {
            assert(files2[a].path@ == files[a].path@);
            assert(files2[b].path@ == files[b].path@);
        }
    }
    lemma_digest_map_dom(files);
    lemma_digest_map_dom(files2);
    lemma_digest_map_at(files, i);
    lemma_digest_map_at(files2, i);
    assert(m2[p0] != m[p0]);
    assert forall|p: Seq<u8>| m.contains_key(p) && p != p0 implies #[trigger] m2[p] == m[p] by {
        let l = choose|l: int| 0 <= l < files.len() && #[trigger] files[l].path@ == p;
        assert(l != i);
        lemma_digest_map_at(files, l);
        assert(files2[l].path@ == p);
        lemma_digest_map_at(files2, l);
        assert(m2[p] == file_digest_of(files2[l].data@));
    }
    lemma_sorted_unique(entries);
    lemma_entries_map_dom(entries);
    assert(entries_map(entries).contains_key(p0));
    let j = choose|j: int| 0 <= j < entries.len() && #[trigger] entries[j].path@ == p0;
    assert forall|k: int| 0 <= k < entries.len() implies (entry_modified(
        #[trigger] entries[k],
        m2,
    ) <==> k == j) && (entry_ok(entries[k], m2) <==> k != j) && !entry_missing(entries[k], m2) by {
        lemma_entries_map_at(entries, k);
        assert(m.contains_key(entries[k].path@));
        assert(m[entries[k].path@] == entries[k].digest@);
        let l = choose|l: int| 0 <= l < files.len() && #[trigger] files[l].path@ == entries[k].path@;
        assert(files2[l].path@ == entries[k].path@);
        assert(m2.contains_key(entries[k].path@));
        if k == j {
            assert(entries[k].path@ == p0);
            assert(m2[p0] != m[p0]);
        } else {
            assert(entries[k].path@ != entries[j].path@);
            assert(entries[k].path@ != p0);
            assert(m2[entries[k].path@] == m[entries[k].path@]);
        }
    }
    lemma_count_modified_flags(entries, m2, j);
    lemma_count_ok_flags(entries, m2, j);
    lemma_count_missing_flags(entries, m2, -1);
    assert forall|k: int| 0 <= k < files2.len() implies entries_map(entries).contains_key(
        (#[trigger] files2[k]).path@,
    ) by {
        assert(files2[k].path@ == files[k].path@ || k == i);
        assert(m.contains_key(files2[k].path@)) by {
            assert(files[k].path@ == files[k].path@);
        }
    }
    lemma_count_unexpected_flags(files2, entries_map(entries), -1);
}

/// Adding one file the fingerprint does not track makes verification
/// report exactly one unexpected entry, leaves every tracked entry
/// intact and does not affect the recorded digests of other files.
pub proof fn lemma_added_file(files: Seq<TreeFile>, entries: Seq<FileDigest>, extra: TreeFile)
    requires
        unique_paths(files),
        sorted_strict(entries),
        entries_map(entries) == digest_map(files),
        forall|j: int| 0 <= j < files.len() ==> (#[trigger] files[j]).path@ != extra.path@,
    ensures
        count_unexpected(files.push(extra), entries_map(entries)) == 1,
        count_ok(entries, digest_map(files.push(extra))) == entries.len(),
        count_modified(entries, digest_map(files.push(extra))) == 0,
        count_missing(entries, digest_map(files.push(extra))) == 0,
        forall|p: Seq<u8>|
            digest_map(files).contains_key(p) ==> #[trigger] digest_map(files.push(extra))[p]
                == digest_map(files)[p],
{
    let files2 = files.push(extra);
    let m = digest_map(files);
    let em = entries_map(entries);
    assert(files2.drop_last() =~= files);
    assert(files2.last() == extra);
    let m2 = digest_map(files2);
    assert(m2 == m.insert(extra.path@, file_digest_of(extra.data@)));
    lemma_digest_map_dom(files);
    assert(!m.contains_key(extra.path@)) by {
        if m.contains_key(extra.path@) {
            let l = choose|l: int| 0 <= l < files.len() && #[trigger] files[l].path@ == extra.path@;
        }
    }
    assert forall|p: Seq<u8>| m.contains_key(p) implies #[trigger] m2[p] == m[p] by {
        assert(p != extra.path@);
    }
    lemma_sorted_unique(entries);
    lemma_entries_map_dom(entries);
    assert forall|k: int| 0 <= k < entries.len() implies entry_ok(#[trigger] entries[k], m2)
        && !entry_modified(entries[k], m2) && !entry_missing(entries[k], m2) by {
        lemma_entries_map_at(entries, k);
        assert(m.contains_key(entries[k].path@));
        assert(entries[k].path@ != extra.path@);
        assert(m2[entries[k].path@] == m[entries[k].path@]);
    }
    lemma_count_ok_flags(entries, m2, -1);
    lemma_count_modified_flags(entries, m2, -1);
    lemma_count_missing_flags(entries, m2, -1);
    assert(!em.contains_key(extra.path@)) by {
        if em.contains_key(extra.path@) {
            let l = choose|l: int|
                0 <= l < entries.len() && #[trigger] entries[l].path@ == extra.path@;
            lemma_entries_map_at(entries, l);
        }
    }
    assert forall|k: int| 0 <= k < files2.len() implies (!em.contains_key(
        (#[trigger] files2[k]).path@,
    ) <==> k == files.len() as int) by {
        if k < files.len() {
            assert(files2[k] == files[k]);
            lemma_digest_map_at(files, k);
            assert(em.contains_key(files[k].path@));
        } else {
            assert(files2[k] == extra);
        }
    }
    lemma_count_unexpected_flags(files2, em, files.len() as int);
}

/// Removing one tracked file makes verification report exactly one
/// missing entry, with every other entry still found intact and no
/// unexpected files.
pub proof fn lemma_removed_file(files: Seq<TreeFile>, entries: Seq<FileDigest>, i: int)
    requires
        unique_paths(files),
        sorted_strict(entries),
        entries_map(entries) == digest_map(files),
        0 <= i < files.len(),
    ensures
        count_missing(entries, digest_map(files.remove(i))) == 1,
        count_ok(entries, digest_map(files.remove(i))) == entries.len() - 1,
        count_modified(entries, digest_map(files.remove(i))) == 0,
        count_unexpected(files.remove(i), entries_map(entries)) == 0,
{
    let files2 = files.remove(i);
    let p0 = files[i].path@;
    let m = digest_map(files);
    let m2 = digest_map(files2);
    let em = entries_map(entries);
    assert(files2.len() == files.len() - 1);
    assert(forall|k: int| 0 <= k < i ==> files2[k] == files[k]);
    assert(forall|k: int| i <= k < files2.len() ==> files2[k] == files[k + 1]);
    assert(unique_paths(files2)) by {
        assert forall|a: int, b: int| 0 <= a < b < files2.len() implies files2[a].path@
            != files2[b].path@ by {
            let a0 = if a < i { a } else { a + 1 };
            let b0 = if b < i { b } else { b + 1 };
            assert(files2[a] == files[a0]);
            assert(files2[b] == files[b0]);
        }
    }
    lemma_digest_map_dom(files);
    lemma_digest_map_dom(files2);
    assert(!m2.contains_key(p0)) by {
        if m2.contains_key(p0) {
            let l = choose|l: int| 0 <= l < files2.len() && #[trigger] files2[l].path@ == p0;
            let l0 = if l < i { l } else { l + 1 };
            assert(files2[l] == files[l0]);
            assert(l0 != i);
            assert(files[l0].path@ == files[i].path@);
        }
    }
    assert forall|p: Seq<u8>| #[trigger] m.contains_key(p) && p != p0 implies m2.contains_key(p)
        && m2[p] == m[p] by {
        let l = choose|l: int| 0 <= l < files.len() && #[trigger] files[l].path@ == p;
        assert(l != i);
        lemma_digest_map_at(files, l);
        let l2 = if l < i { l } else { l - 1 };
        assert(files2[l2] == files[l]);
        assert(files2[l2].path@ == p);
        lemma_digest_map_at(files2, l2);
        assert(m2[p] == file_digest_of(files2[l2].data@));
    }
    lemma_sorted_unique(entries);
    lemma_entries_map_dom(entries);
    assert(em.contains_key(p0)) by {
        lemma_digest_map_at(files, i);
    }
    let j = choose|j: int| 0 <= j < entries.len() && #[trigger] entries[j].path@ == p0;
    assert forall|k: int| 0 <= k < entries.len() implies (entry_missing(
        #[trigger] entries[k],
        m2,
    ) <==> k == j) && (entry_ok(entries[k], m2) <==> k != j) && !entry_modified(entries[k], m2) by {
        lemma_entries_map_at(entries, k);
        assert(m.contains_key(entries[k].path@));
        assert(m[entries[k].path@] == entries[k].digest@);
        if k == j {
            assert(entries[k].path@ == p0);
            assert(!m2.contains_key(p0));
        } else {
            assert(entries[k].path@ != entries[j].path@);
            assert(entries[k].path@ != p0);
            assert(m2[entries[k].path@] == m[entries[k].path@] && m2.contains_key(
                entries[k].path@,
            ));
        }
    }
    lemma_count_missing_flags(entries, m2, j);
    lemma_count_ok_flags(entries, m2, j);
    lemma_count_modified_flags(entries, m2, -1);
    assert forall|k: int| 0 <= k < files2.len() implies em.contains_key(
        (#[trigger] files2[k]).path@,
    ) by {
        let l0 = if k < i { k } else { k + 1 };
        assert(files2[k] == files[l0]);
        lemma_digest_map_at(files, l0);
    }
    lemma_count_unexpected_flags(files2, em, -1);
}

} // verus!
