//! Data model of the acquisition tool: repository records, integrity
//! fingerprints, scan findings and verification reports.
//!
//! Textual values that the verified logic inspects byte by byte
//! (relative paths, file contents, hex digests, scanner patterns) are
//! carried as byte vectors; values that are only stored, compared for
//! equality or displayed stay `String`.

use vstd::prelude::*;

verus! {

/// One regular file of a checked-out tree, as handed to the library:
/// its path relative to the tree root and its full contents.
#[derive(Debug, Clone, PartialEq)]
pub struct TreeFile {
    pub path: Vec<u8>,
    pub data: Vec<u8>,
}

/// One entry of a fingerprint: a relative path and the lower-case hex
/// digest of the file's contents.
#[derive(Debug, Clone, PartialEq)]
pub struct FileDigest {
    pub path: Vec<u8>,
    pub digest: Vec<u8>,
}

/// A deterministic integrity fingerprint of a checked-out repository.
///
/// `file_checksums` is kept strictly sorted by path (byte-wise), so the
/// aggregate `total_hash` does not depend on the order in which the
/// tree was walked.
#[derive(Debug, Clone, PartialEq)]
pub struct RepoChecksum {
    pub repo_url: String,
    pub commit_hash: String,
    pub file_checksums: Vec<FileDigest>,
    pub total_hash: Vec<u8>,
    pub verified_at: String,
}

/// Record of one completed acquisition; appended to the registry and
/// never mutated afterwards.
#[derive(Debug, Clone, PartialEq)]
pub struct InstalledRepo {
    pub name: String,
    pub url: String,
    pub path: String,
    pub commit_hash: Option<String>,
    pub verified: bool,
    pub workspace_path: Option<String>,
}

/// One repository returned by the remote search endpoint.
#[derive(Debug, Clone, PartialEq)]
pub struct GitHubRepo {
    pub full_name: String,
    pub html_url: String,
    pub description: Option<String>,
    pub stargazers_count: u32,
}

/// The decoded body of a repository search response.
#[derive(Debug, Clone, PartialEq)]
pub struct GitHubSearchResponse {
    pub items: Vec<GitHubRepo>,
}

/// One heuristic scanner match: the name of the offending file and the
/// description of the suspicious pattern found in it.
#[derive(Debug, Clone, PartialEq)]
pub struct ScanFinding {
    pub file_name: Vec<u8>,
    pub description: Vec<u8>,
}

/// Result of diffing a tree against an expected fingerprint.
///
/// `verified`, `modified` and `missing` partition the expected entries;
/// `unexpected` counts present files the fingerprint does not know.
/// `commit_mismatch` is a non-fatal warning: revision drift alone does
/// not fail verification, content mismatch does.
#[derive(Debug, Clone, PartialEq)]
pub struct VerificationReport {
    pub verified: usize,
    pub modified: usize,
    pub missing: usize,
    pub unexpected: usize,
    pub all_match: bool,
    pub commit_mismatch: bool,
}

} // verus!
