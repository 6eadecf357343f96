//! The heuristic scanner: a fast smell test over source-like files.
//!
//! Each file whose name carries a source-like extension is lower-cased
//! and tested against a fixed table of suspicious substrings; at most
//! one finding is recorded per file (the first matching pattern wins).
//! Findings are returned sorted and deduplicated, so the output is
//! reproducible.  The scanner makes no security claim beyond flagging
//! obviously loud red flags.

use vstd::prelude::*;
use vstd::slice::slice_to_vec;
use vstd::slice::slice_subrange;
use vstd::string::StringSliceAdditionalSpecFns;
use crate::bytes::{lex_le, lex_lt, lower_bytes, contains_seq, bytes_eq, bytes_lex_le,
    ascii_lowercase, contains_bytes, lemma_lex_le_total, lemma_lex_le_antisymmetric};
use crate::types::{TreeFile, ScanFinding};

verus! {

/// Index of the last `.` in a name, or -1 if there is none.
pub open spec fn last_dot(name: Seq<u8>) -> int
    decreases name.len(),
{
    if name.len() == 0 {
        -1
    } else if name.last() == 46 {
        name.len() - 1
    } else {
        last_dot(name.drop_last())
    }
}

/// The source-like extensions the scanner looks at.
pub open spec fn allowed_extension(e: Seq<u8>) -> bool {
    ||| e == ("py").spec_bytes()
    ||| e == ("js").spec_bytes()
    ||| e == ("sh").spec_bytes()
    ||| e == ("bash").spec_bytes()
    ||| e == ("rb").spec_bytes()
    ||| e == ("pl").spec_bytes()
    ||| e == ("php").spec_bytes()
    ||| e == ("rs").spec_bytes()
}

/// A file is scanned when it is not hidden and its name carries one of
/// the source-like extensions.
pub open spec fn scan_eligible(name: Seq<u8>) -> bool {
    &&& name.len() > 0
    &&& name[0] != 46
    &&& last_dot(name) >= 0
    &&& allowed_extension(name.skip(last_dot(name) + 1))
}

/// First matching pattern's description for already lower-cased
/// contents; the table order decides which pattern wins.
pub open spec fn match_description(lowered: Seq<u8>) -> Option<Seq<u8>> {
    if contains_seq(lowered, ("eval(").spec_bytes()) {
        Some(("eval() usage").spec_bytes())
    } else if contains_seq(lowered, ("exec(").spec_bytes()) {
        Some(("exec() usage").spec_bytes())
    } else if contains_seq(lowered, ("subprocess").spec_bytes()) {
        Some(("subprocess usage").spec_bytes())
    } else if contains_seq(lowered, ("os.system").spec_bytes()) {
        Some(("os.system usage").spec_bytes())
    } else if contains_seq(lowered, ("shell=true").spec_bytes()) {
        Some(("shell=True").spec_bytes())
    } else if contains_seq(lowered, ("/etc/passwd").spec_bytes()) {
        Some(("password file access").spec_bytes())
    } else if contains_seq(lowered, ("rm -rf").spec_bytes()) {
        Some(("recursive deletion").spec_bytes())
    } else if contains_seq(lowered, ("curl").spec_bytes()) {
        Some(("network request").spec_bytes())
    } else if contains_seq(lowered, ("base64.b64decode").spec_bytes()) {
        Some(("base64 decode").spec_bytes())
    } else if contains_seq(lowered, ("authorized_keys").spec_bytes()) {
        Some(("SSH keys access").spec_bytes())
    } else if contains_seq(lowered, ("bitcoin").spec_bytes()) {
        Some(("crypto-related").spec_bytes())
    } else {
        None
    }
}

/// The finding owed for one file: its name and the description of the
/// first pattern found in its lower-cased contents, if the file is
/// eligible and any pattern matches.
pub open spec fn scan_finding_of(f: TreeFile) -> Option<(Seq<u8>, Seq<u8>)> {
    if scan_eligible(f.path@) {
        match match_description(lower_bytes(f.data@)) {
            Some(d) => Some((f.path@, d)),
            None => None,
        }
    } else {
        None
    }
}

/// All findings of a file list, in list order, before sorting: at most
/// one per file.
pub open spec fn raw_findings(files: Seq<TreeFile>) -> Seq<(Seq<u8>, Seq<u8>)>
    decreases files.len(),
{
    if files.len() == 0 {
        Seq::empty()
    } else {
        raw_findings(files.drop_last()) + match scan_finding_of(files.last()) {
            Some(x) => seq![x],
            None => Seq::empty(),
        }
    }
}

/// Order on findings: by file name, then by description.
pub open spec fn finding_le(a: ScanFinding, b: ScanFinding) -> bool {
    lex_lt(a.file_name@, b.file_name@) || (a.file_name@ == b.file_name@ && lex_le(
        a.description@,
        b.description@,
    ))
}

/// Two findings with the same file name and description.
pub open spec fn finding_eq(a: ScanFinding, b: ScanFinding) -> bool {
    a.file_name@ == b.file_name@ && a.description@ == b.description@
}

/// Strict order on findings.
pub open spec fn finding_lt(a: ScanFinding, b: ScanFinding) -> bool {
    finding_le(a, b) && !finding_eq(a, b)
}

/// Findings in strictly ascending order: sorted, with no duplicates.
pub open spec fn sorted_findings(s: Seq<ScanFinding>) -> bool {
    forall|i: int| 0 <= i && i + 1 < s.len() ==> finding_lt(#[trigger] s[i], s[i + 1])
}

/// A finding with the given name and description occurs in the list.
pub open spec fn finding_in(s: Seq<ScanFinding>, n: Seq<u8>, d: Seq<u8>) -> bool {
    exists|k: int| 0 <= k < s.len() && (#[trigger] s[k]).file_name@ == n && s[k].description@ == d
}

/// The finding order is total.
proof fn lemma_finding_total(a: ScanFinding, b: ScanFinding)
    ensures
        finding_le(a, b) || finding_le(b, a),
{
    lemma_lex_le_total(a.file_name@, b.file_name@);
    lemma_lex_le_total(a.description@, b.description@);
    if !finding_le(a, b) && !finding_le(b, a) {
        if a.file_name@ == b.file_name@ {
        } else {
            lemma_lex_le_antisymmetric(a.file_name@, b.file_name@);
        }
    }
}

/// Compares two findings in the (name, description) order.
fn finding_le_exec(a: &ScanFinding, b: &ScanFinding) -> (r: bool)
    ensures
        r == finding_le(*a, *b),
{
    if bytes_eq(a.file_name.as_slice(), b.file_name.as_slice()) {
        bytes_lex_le(a.description.as_slice(), b.description.as_slice())
    } else {
        bytes_lex_le(a.file_name.as_slice(), b.file_name.as_slice())
    }
}

/// Tests whether two findings carry the same name and description.
fn finding_eq_exec(a: &ScanFinding, b: &ScanFinding) -> (r: bool)
    ensures
        r == finding_eq(*a, *b),
{
    bytes_eq(a.file_name.as_slice(), b.file_name.as_slice()) && bytes_eq(
        a.description.as_slice(),
        b.description.as_slice(),
    )
}

/// Inserts a finding into a sorted, duplicate-free list, keeping it
/// sorted and duplicate-free; membership gains exactly this finding.
#[verifier::rlimit(30)]
fn insert_finding(acc: &mut Vec<ScanFinding>, f: ScanFinding)
    requires
        sorted_findings(old(acc)@),
    ensures
        sorted_findings(final(acc)@),
        forall|n: Seq<u8>, d: Seq<u8>|
            #![trigger finding_in(final(acc)@, n, d)]
            finding_in(final(acc)@, n, d) <==> finding_in(old(acc)@, n, d) || (n == f.file_name@
                && d == f.description@),
{
    let n = acc.len();
    let mut k: usize = 0;
    while k < n && !finding_le_exec(&f, &acc[k])
        invariant
            n == acc@.len(),
            0 <= k <= n,
            forall|j: int| 0 <= j < k ==> !finding_le(f, #[trigger] acc@[j]),
        decreases n - k,
    {
        k = k + 1;
    }
    proof {
        assert forall|j: int| 0 <= j < k implies finding_lt(#[trigger] acc@[j], f) by {
            lemma_finding_total(f, acc@[j]);
            if finding_eq(acc@[j], f) {
                assert(finding_le(f, acc@[j]));
            }
        }
    }
    if k < n && finding_eq_exec(&acc[k], &f) {
        proof {
            assert(acc@[k as int].file_name@ == f.file_name@);
            assert(forall|nn: Seq<u8>, dd: Seq<u8>|
                finding_in(acc@, nn, dd) <==> finding_in(acc@, nn, dd));
            assert forall|nn: Seq<u8>, dd: Seq<u8>|
                finding_in(acc@, nn, dd) <==> finding_in(acc@, nn, dd) || (nn == f.file_name@ && dd
                    == f.description@) by {
                if nn == f.file_name@ && dd == f.description@ {
                    assert(acc@[k as int].file_name@ == nn && acc@[k as int].description@ == dd);
                }
            }
        }
        return ;
    }
    let ghost prev = acc@;
    acc.insert(k, f);
    proof {
        assert(acc@ == prev.insert(k as int, f));
        assert forall|i: int| 0 <= i && i + 1 < acc@.len() implies finding_lt(
            #[trigger] acc@[i],
            acc@[i + 1],
        ) by {
            if i + 1 < k {
                assert(acc@[i] == prev[i]);
                assert(acc@[i + 1] == prev[i + 1]);
            } else if i + 1 == k {
                assert(acc@[i] == prev[i]);
                assert(acc@[i + 1] == f);
            } else if i == k {
                assert(acc@[i] == f);
                assert(acc@[i + 1] == prev[i]);
                assert(finding_le(f, prev[i]));
                assert(!finding_eq(prev[i], f));
                if finding_eq(f, prev[i]) {
                    assert(finding_eq(prev[i], f));
                }
            } else {
                assert(acc@[i] == prev[i - 1]);
                assert(acc@[i + 1] == prev[i]);
            }
        }
        assert forall|nn: Seq<u8>, dd: Seq<u8>|
            #![trigger finding_in(acc@, nn, dd)]
            finding_in(acc@, nn, dd) <==> finding_in(prev, nn, dd) || (nn == f.file_name@ && dd
                == f.description@) by {
            if finding_in(acc@, nn, dd) {
                let l = choose|l: int|
                    0 <= l < acc@.len() && (#[trigger] acc@[l]).file_name@ == nn
                        && acc@[l].description@ == dd;
                if l < k {
                    assert(prev[l].file_name@ == nn && prev[l].description@ == dd);
                } else if l == k {
                } else {
                    assert(prev[l - 1].file_name@ == nn && prev[l - 1].description@ == dd);
                }
            }
            if finding_in(prev, nn, dd) {
                let l = choose|l: int|
                    0 <= l < prev.len() && (#[trigger] prev[l]).file_name@ == nn
                        && prev[l].description@ == dd;
                if l < k {
                    assert(acc@[l].file_name@ == nn && acc@[l].description@ == dd);
                } else {
                    assert(acc@[l + 1].file_name@ == nn && acc@[l + 1].description@ == dd);
                }
            }
            if nn == f.file_name@ && dd == f.description@ {
                assert(acc@[k as int].file_name@ == nn && acc@[k as int].description@ == dd);
            }
        }
    }
}

/// Decides whether a file name is eligible for scanning.
fn scan_eligible_exec(name: &[u8]) -> (r: bool)
    ensures
        r == scan_eligible(name@),
{
    let n = name.len();
    if n == 0 {
        return false;
    }
    if name[0] == 46 {
        return false;
    }
    let mut j: usize = n;
    proof {
        assert(name@.take(n as int) =~= name@);
    }
    while j > 0 && name[j - 1] != 46
        invariant
            n == name@.len(),
            0 <= j <= n,
            last_dot(name@) == last_dot(name@.take(j as int)),
        decreases j,
    {
        proof {
            let t = name@.take(j as int);
            assert(t.last() == name@[j - 1]);
            assert(t.drop_last() =~= name@.take(j - 1));
        }
        j = j - 1;
    }
    if j == 0 {
        proof {
            assert(name@.take(0) =~= Seq::<u8>::empty());
            assert(last_dot(name@) == -1);
        }
        return false;
    }
    proof {
        let t = name@.take(j as int);
        assert(t.last() == name@[j - 1]);
        assert(last_dot(name@) == j - 1);
    }
    let ext = slice_subrange(name, j, n);
    proof {
        assert(ext@ =~= name@.skip(last_dot(name@) + 1));
    }
    if bytes_eq(ext, "py".as_bytes()) {
        return true;
    }
    if bytes_eq(ext, "js".as_bytes()) {
        return true;
    }
    if bytes_eq(ext, "sh".as_bytes()) {
        return true;
    }
    if bytes_eq(ext, "bash".as_bytes()) {
        return true;
    }
    if bytes_eq(ext, "rb".as_bytes()) {
        return true;
    }
    if bytes_eq(ext, "pl".as_bytes()) {
        return true;
    }
    if bytes_eq(ext, "php".as_bytes()) {
        return true;
    }
    if bytes_eq(ext, "rs".as_bytes()) {
        return true;
    }
    false
}

/// Finds the description owed for lower-cased contents, if any
/// pattern matches.
fn match_description_exec(lowered: &[u8]) -> (r: Option<Vec<u8>>)
    ensures
        match r {
            Some(d) => match_description(lowered@) == Some(d@),
            None => match_description(lowered@).is_none(),
        },
{
    if contains_bytes(lowered, "eval(".as_bytes()) {
        return Some(slice_to_vec("eval() usage".as_bytes()));
    }
    if contains_bytes(lowered, "exec(".as_bytes()) {
        return Some(slice_to_vec("exec() usage".as_bytes()));
    }
    if contains_bytes(lowered, "subprocess".as_bytes()) {
        return Some(slice_to_vec("subprocess usage".as_bytes()));
    }
    if contains_bytes(lowered, "os.system".as_bytes()) {
        return Some(slice_to_vec("os.system usage".as_bytes()));
    }
    if contains_bytes(lowered, "shell=true".as_bytes()) {
        return Some(slice_to_vec("shell=True".as_bytes()));
    }
    if contains_bytes(lowered, "/etc/passwd".as_bytes()) {
        return Some(slice_to_vec("password file access".as_bytes()));
    }
    if contains_bytes(lowered, "rm -rf".as_bytes()) {
        return Some(slice_to_vec("recursive deletion".as_bytes()));
    }
    if contains_bytes(lowered, "curl".as_bytes()) {
        return Some(slice_to_vec("network request".as_bytes()));
    }
    if contains_bytes(lowered, "base64.b64decode".as_bytes()) {
        return Some(slice_to_vec("base64 decode".as_bytes()));
    }
    if contains_bytes(lowered, "authorized_keys".as_bytes()) {
        return Some(slice_to_vec("SSH keys access".as_bytes()));
    }
    if contains_bytes(lowered, "bitcoin".as_bytes()) {
        return Some(slice_to_vec("crypto-related".as_bytes()));
    }
    None
}

/// Scans the given files for suspicious patterns.
///
/// The result holds exactly the findings owed for the eligible files —
/// at most one per file, the first matching pattern winning — sorted
/// by file name and description, with duplicates removed.  Scanning
/// never fails; the same files always yield the same findings.
pub fn scan_for_suspicious_patterns(files: &Vec<TreeFile>) -> (r: Vec<ScanFinding>)
    ensures
        sorted_findings(r@),
        forall|n: Seq<u8>, d: Seq<u8>|
            finding_in(r@, n, d) <==> raw_findings(files@).contains((n, d)),
{
    let nf = files.len();
    let mut out: Vec<ScanFinding> = Vec::new();
    let mut i: usize = 0;
    proof {
        assert(files@.take(0) =~= Seq::<TreeFile>::empty());
    }
    while i < nf
        invariant
            nf == files@.len(),
            0 <= i <= nf,
            sorted_findings(out@),
            forall|n: Seq<u8>, d: Seq<u8>|
                finding_in(out@, n, d) <==> raw_findings(files@.take(i as int)).contains((n, d)),
        decreases nf - i,
    {
        let f = &files[i];
        let ghost pre = files@.take(i as int);
        let ghost post = files@.take(i + 1);
        proof {
            assert(post.drop_last() =~= pre);
            assert(post.last() == files@[i as int]);
        }
        if scan_eligible_exec(f.path.as_slice()) {
            let lowered = ascii_lowercase(f.data.as_slice());
            match match_description_exec(lowered.as_slice()) {
                Some(desc) => {
                    let ghost x = (f.path@, desc@);
                    proof {
                        assert(scan_finding_of(files@[i as int]) == Some(x));
                        assert(raw_findings(post) =~= raw_findings(pre).push(x));
                    }
                    let name = slice_to_vec(f.path.as_slice());
                    let finding = ScanFinding { file_name: name, description: desc };
                    insert_finding(&mut out, finding);
                    proof {
                        assert forall|n: Seq<u8>, d: Seq<u8>|
                            finding_in(out@, n, d) <==> raw_findings(post).contains((n, d)) by {
                            if finding_in(out@, n, d) {
                                if n == x.0 && d == x.1 {
                                    assert(raw_findings(post)[raw_findings(post).len() - 1] == (
                                    n,
                                    d,
                                    ));
                                } else {
                                    assert(raw_findings(pre).contains((n, d)));
                                    let l = choose|l: int|
                                        0 <= l < raw_findings(pre).len() && raw_findings(pre)[l]
                                            == (n, d);
                                    assert(raw_findings(post)[l] == (n, d));
                                }
                            }
                            if raw_findings(post).contains((n, d)) {
                                let l = choose|l: int|
                                    0 <= l < raw_findings(post).len() && raw_findings(post)[l] == (
                                    n,
                                    d,
                                    );
                                if l < raw_findings(pre).len() {
                                    assert(raw_findings(pre)[l] == (n, d));
                                    assert(raw_findings(pre).contains((n, d)));
                                } else {
                                    assert(raw_findings(post)[l] == x);
                                }
                            }
                        }
                    }
                },
                None => {
                    proof {
                        assert(scan_finding_of(files@[i as int]).is_none());
                        assert(raw_findings(post) =~= raw_findings(pre));
                    }
                },
            }
        } else {
            proof {
                assert(scan_finding_of(files@[i as int]).is_none());
                assert(raw_findings(post) =~= raw_findings(pre));
            }
        }
        i = i + 1;
    }
    proof {
        assert(files@.take(nf as int) =~= files@);
    }
    out
}

} // verus!
