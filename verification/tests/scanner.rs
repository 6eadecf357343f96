use gitfetch::scan::scan_for_suspicious_patterns;
use gitfetch::types::{ScanFinding, TreeFile};

fn file(name: &str, data: &str) -> TreeFile {
    TreeFile { path: name.as_bytes().to_vec(), data: data.as_bytes().to_vec() }
}

fn finding(name: &str, desc: &str) -> ScanFinding {
    ScanFinding { file_name: name.as_bytes().to_vec(), description: desc.as_bytes().to_vec() }
}

#[test]
fn destructive_command_triggers_exactly_one_finding() {
    let files = vec![file("setup.sh", "echo hi\nrm -rf /tmp/target\n")];
    let findings = scan_for_suspicious_patterns(&files);
    assert_eq!(findings, vec![finding("setup.sh", "recursive deletion")]);
    // Scanning the same tree twice yields the identical finding set.
    let again = scan_for_suspicious_patterns(&files);
    assert_eq!(findings, again);
}

#[test]
fn non_source_extensions_are_not_scanned() {
    let files = vec![file("notes.txt", "rm -rf everything")];
    assert_eq!(scan_for_suspicious_patterns(&files).len(), 0);
}

#[test]
fn hidden_files_are_skipped() {
    let files = vec![file(".sneaky.sh", "rm -rf /")];
    assert_eq!(scan_for_suspicious_patterns(&files).len(), 0);
}

#[test]
fn matching_is_case_insensitive() {
    let files = vec![file("a.py", "EVAL(payload)")];
    assert_eq!(
        scan_for_suspicious_patterns(&files),
        vec![finding("a.py", "eval() usage")]
    );
}

#[test]
fn first_matching_pattern_wins() {
    // The file holds both a network request and an eval; the table
    // order decides, not the position in the file.
    let files = vec![file("b.js", "curl http://x; eval(code)")];
    assert_eq!(
        scan_for_suspicious_patterns(&files),
        vec![finding("b.js", "eval() usage")]
    );
}

#[test]
fn findings_are_sorted_and_deduplicated() {
    let files = vec![
        file("z.rb", "os.system('x')"),
        file("a.pl", "curl http://x"),
        file("z.rb", "os.system('y')"),
    ];
    let findings = scan_for_suspicious_patterns(&files);
    assert_eq!(
        findings,
        vec![finding("a.pl", "network request"), finding("z.rb", "os.system usage")]
    );
}

#[test]
fn clean_files_yield_no_findings() {
    let files = vec![file("lib.rs", "fn main() {}\n"), file("x.php", "echo 'hi';")];
    assert_eq!(scan_for_suspicious_patterns(&files).len(), 0);
}

#[test]
fn each_pattern_is_detected() {
    let cases = vec![
        ("eval(x)", "eval() usage"),
        ("exec(x)", "exec() usage"),
        ("import subprocess", "subprocess usage"),
        ("os.system('ls')", "os.system usage"),
        ("run(cmd, shell=True)", "shell=True"),
        ("open('/etc/passwd')", "password file access"),
        ("rm -rf /", "recursive deletion"),
        ("curl http://evil", "network request"),
        ("base64.b64decode(blob)", "base64 decode"),
        ("cat ~/.ssh/authorized_keys", "SSH keys access"),
        ("mine bitcoin now", "crypto-related"),
    ];
    for (content, desc) in cases {
        let files = vec![file("probe.py", content)];
        assert_eq!(
            scan_for_suspicious_patterns(&files),
            vec![finding("probe.py", desc)],
            "pattern for {:?}",
            desc
        );
    }
}
