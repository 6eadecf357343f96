use gitfetch::checksum::{calculate_file_checksum, calculate_repo_checksums, verify_repo_checksums};
use gitfetch::types::TreeFile;
use sha2::{Digest, Sha256};

fn file(path: &str, data: &str) -> TreeFile {
    TreeFile { path: path.as_bytes().to_vec(), data: data.as_bytes().to_vec() }
}

fn hex_of(data: &[u8]) -> String {
    Sha256::digest(data).iter().map(|b| format!("{:02x}", b)).collect()
}

#[test]
fn file_checksum_of_empty_input() {
    let digest = calculate_file_checksum(b"");
    assert_eq!(
        String::from_utf8(digest).unwrap(),
        "e3b0c44298fc1c149afbf4c8996fb92427ae41e4649b934ca495991b7852b855"
    );
}

#[test]
fn file_checksum_matches_known_value() {
    let digest = calculate_file_checksum(b"abc");
    assert_eq!(
        String::from_utf8(digest).unwrap(),
        "ba7816bf8f01cfea414140de5dae2223b00361a396177a9cb410ff61f20015ad"
    );
}

#[test]
fn fingerprint_entries_are_sorted_by_path() {
    let files = vec![file("b.txt", "world"), file("a.txt", "hello"), file("c/d.txt", "!")];
    let fp = calculate_repo_checksums(&files, "url".to_string(), "commit".to_string());
    assert_eq!(fp.file_checksums.len(), 3);
    assert_eq!(fp.file_checksums[0].path, b"a.txt".to_vec());
    assert_eq!(fp.file_checksums[1].path, b"b.txt".to_vec());
    assert_eq!(fp.file_checksums[2].path, b"c/d.txt".to_vec());
    assert_eq!(fp.repo_url, "url");
    assert_eq!(fp.commit_hash, "commit");
}

#[test]
fn fingerprint_ignores_walk_order() {
    let one = vec![file("a.txt", "hello"), file("b.txt", "world"), file("z.txt", "last")];
    let two = vec![file("z.txt", "last"), file("b.txt", "world"), file("a.txt", "hello")];
    let fp1 = calculate_repo_checksums(&one, "u".to_string(), "c".to_string());
    let fp2 = calculate_repo_checksums(&two, "u".to_string(), "c".to_string());
    assert_eq!(fp1.file_checksums, fp2.file_checksums);
    assert_eq!(fp1.total_hash, fp2.total_hash);
}

#[test]
fn aggregate_digest_matches_sorted_concatenation() {
    let files = vec![file("b.txt", "world"), file("a.txt", "hello")];
    let fp = calculate_repo_checksums(&files, "u".to_string(), "c".to_string());
    let mut agg: Vec<u8> = Vec::new();
    agg.extend_from_slice(b"a.txt");
    agg.extend_from_slice(hex_of(b"hello").as_bytes());
    agg.extend_from_slice(b"b.txt");
    agg.extend_from_slice(hex_of(b"world").as_bytes());
    assert_eq!(String::from_utf8(fp.total_hash).unwrap(), hex_of(&agg));
}

#[test]
fn verify_round_trip_is_full_match() {
    let files = vec![file("a.txt", "hello"), file("b.txt", "world"), file("c.txt", "third")];
    let fp = calculate_repo_checksums(&files, "u".to_string(), "c".to_string());
    let report = verify_repo_checksums(&files, &fp, None);
    assert_eq!(report.verified, 3);
    assert_eq!(report.modified, 0);
    assert_eq!(report.missing, 0);
    assert_eq!(report.unexpected, 0);
    assert!(report.all_match);
    assert!(!report.commit_mismatch);
}

#[test]
fn one_byte_mutation_flips_digests_and_reports_one_change() {
    let files = vec![file("a.txt", "hello"), file("b.txt", "world")];
    let fp = calculate_repo_checksums(&files, "u".to_string(), "c".to_string());
    // Flip one byte of one tracked file.
    let mutated = vec![file("a.txt", "hellp"), file("b.txt", "world")];
    let fp2 = calculate_repo_checksums(&mutated, "u".to_string(), "c".to_string());
    assert_ne!(
        calculate_file_checksum(b"hello"),
        calculate_file_checksum(b"hellp")
    );
    assert_ne!(fp.total_hash, fp2.total_hash);
    assert_eq!(fp.file_checksums[1], fp2.file_checksums[1]);
    let report = verify_repo_checksums(&mutated, &fp, None);
    assert_eq!(report.modified, 1);
    assert_eq!(report.verified, 1);
    assert_eq!(report.missing, 0);
    assert_eq!(report.unexpected, 0);
    assert!(!report.all_match);
}

#[test]
fn added_file_reports_one_unexpected() {
    let files = vec![file("a.txt", "hello"), file("b.txt", "world")];
    let fp = calculate_repo_checksums(&files, "u".to_string(), "c".to_string());
    let grown = vec![file("a.txt", "hello"), file("b.txt", "world"), file("n.txt", "new")];
    let fp2 = calculate_repo_checksums(&grown, "u".to_string(), "c".to_string());
    // Digests of the unrelated files are unaffected.
    assert_eq!(fp.file_checksums[0], fp2.file_checksums[0]);
    assert_eq!(fp.file_checksums[1], fp2.file_checksums[1]);
    let report = verify_repo_checksums(&grown, &fp, None);
    assert_eq!(report.unexpected, 1);
    assert_eq!(report.verified, 2);
    assert_eq!(report.modified, 0);
    assert_eq!(report.missing, 0);
    assert!(!report.all_match);
}

#[test]
fn removed_file_reports_one_missing() {
    let files = vec![file("a.txt", "hello"), file("b.txt", "world"), file("c.txt", "third")];
    let fp = calculate_repo_checksums(&files, "u".to_string(), "c".to_string());
    let shrunk = vec![file("a.txt", "hello"), file("c.txt", "third")];
    let report = verify_repo_checksums(&shrunk, &fp, None);
    assert_eq!(report.missing, 1);
    assert_eq!(report.verified, 2);
    assert_eq!(report.modified, 0);
    assert_eq!(report.unexpected, 0);
    assert!(!report.all_match);
}

#[test]
fn revision_drift_is_a_warning_not_a_failure() {
    let files = vec![file("a.txt", "hello")];
    let fp = calculate_repo_checksums(&files, "u".to_string(), "abc123".to_string());
    let drifted = "fff999".to_string();
    let report = verify_repo_checksums(&files, &fp, Some(&drifted));
    assert!(report.commit_mismatch);
    assert!(report.all_match);
    let same = "abc123".to_string();
    let report2 = verify_repo_checksums(&files, &fp, Some(&same));
    assert!(!report2.commit_mismatch);
}

#[test]
fn empty_tree_fingerprint_verifies() {
    let files: Vec<TreeFile> = vec![];
    let fp = calculate_repo_checksums(&files, "u".to_string(), "c".to_string());
    assert_eq!(fp.file_checksums.len(), 0);
    let report = verify_repo_checksums(&files, &fp, None);
    assert!(report.all_match);
    assert_eq!(report.verified, 0);
}
