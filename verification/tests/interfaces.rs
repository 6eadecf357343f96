use gitfetch::config::GitFetchConfig;
use gitfetch::checksum::calculate_repo_checksums;
use gitfetch::resolve::{resolve_repo_url, repo_name_from_url};
use gitfetch::sandbox::sandboxed_git_command;
use gitfetch::search::{build_search_query, build_search_url, top_results};
use gitfetch::suggest::{complete_repo_suggestions, complete_clone_suggestions};
use gitfetch::types::{GitHubRepo, GitHubSearchResponse, InstalledRepo, TreeFile};

fn fingerprint_of(content: &str) -> gitfetch::types::RepoChecksum {
    let files = vec![TreeFile { path: b"f".to_vec(), data: content.as_bytes().to_vec() }];
    calculate_repo_checksums(&files, "u".to_string(), "c".to_string())
}

fn repo(name: &str, url: &str) -> InstalledRepo {
    InstalledRepo {
        name: name.to_string(),
        url: url.to_string(),
        path: "/tmp/somewhere".to_string(),
        commit_hash: None,
        verified: false,
        workspace_path: None,
    }
}

#[test]
fn config_starts_empty() {
    let c = GitFetchConfig::new();
    assert!(c.installed_repos.is_empty());
    assert!(c.checksum_registry.is_empty());
}

#[test]
fn add_repo_appends_a_record() {
    let mut c = GitFetchConfig::new();
    c.add_repo(
        "name".to_string(),
        "url".to_string(),
        "/path".to_string(),
        Some("abc".to_string()),
        true,
        None,
    );
    assert_eq!(c.installed_repos.len(), 1);
    assert_eq!(c.installed_repos[0].name, "name");
    assert_eq!(c.installed_repos[0].url, "url");
    assert_eq!(c.installed_repos[0].path, "/path");
    assert_eq!(c.installed_repos[0].commit_hash, Some("abc".to_string()));
    assert!(c.installed_repos[0].verified);
    assert_eq!(c.installed_repos[0].workspace_path, None);
}

#[test]
fn checksum_registry_binds_one_fingerprint_per_url() {
    let mut c = GitFetchConfig::new();
    assert!(c.get_checksum("https://x/a").is_none());
    let fp1 = fingerprint_of("one");
    let fp2 = fingerprint_of("two");
    let fp3 = fingerprint_of("three");
    c.add_checksum("https://x/a".to_string(), fp1.clone());
    c.add_checksum("https://x/b".to_string(), fp2.clone());
    assert_eq!(c.get_checksum("https://x/a"), Some(&fp1));
    assert_eq!(c.get_checksum("https://x/b"), Some(&fp2));
    assert!(c.get_checksum("https://x/c").is_none());
    // Re-binding a URL replaces its fingerprint.
    c.add_checksum("https://x/a".to_string(), fp3.clone());
    assert_eq!(c.get_checksum("https://x/a"), Some(&fp3));
    assert_eq!(c.get_checksum("https://x/b"), Some(&fp2));
    assert_eq!(c.checksum_registry.len(), 2);
}

#[test]
fn full_urls_resolve_to_themselves() {
    assert_eq!(
        resolve_repo_url("https://github.com/a/b"),
        Some("https://github.com/a/b".to_string())
    );
    assert_eq!(resolve_repo_url("http://host/x"), Some("http://host/x".to_string()));
}

#[test]
fn owner_name_resolves_to_the_well_known_host() {
    assert_eq!(
        resolve_repo_url("someone/tool"),
        Some("https://github.com/someone/tool".to_string())
    );
}

#[test]
fn bare_words_are_rejected() {
    assert_eq!(resolve_repo_url("nonsense"), None);
}

#[test]
fn repo_names_follow_the_last_slash() {
    assert_eq!(repo_name_from_url("https://github.com/a/b.git"), "b");
    assert_eq!(repo_name_from_url("https://github.com/a/b"), "b");
    assert_eq!(repo_name_from_url("b.git.git"), "b");
    assert_eq!(repo_name_from_url("plain"), "plain");
    assert_eq!(repo_name_from_url("https://host/x/"), "");
}

#[test]
fn sandbox_profile_denies_network_on_demand() {
    let args = vec!["clone".to_string(), "--no-checkout".to_string(), "u".to_string()];
    let with_net = sandboxed_git_command("/ws", &args, true);
    let without_net = sandboxed_git_command("/ws", &args, false);
    assert!(!with_net.contains(&"--unshare-net".to_string()));
    assert!(without_net.contains(&"--unshare-net".to_string()));
}

#[test]
fn sandbox_profile_pins_the_whole_invocation() {
    let args = vec!["checkout".to_string(), "--force".to_string(), "HEAD".to_string()];
    let argv = sandboxed_git_command("/home/me/.gitfetch/workspace/x", &args, false);
    assert_eq!(&argv[0..3], &["timeout".to_string(), "300".to_string(), "bwrap".to_string()]);
    let n = argv.len();
    assert_eq!(
        &argv[n - 4..],
        &["git".to_string(), "checkout".to_string(), "--force".to_string(), "HEAD".to_string()]
    );
    // The workspace is the single writable bind.
    let bind = argv.iter().position(|a| a == "--bind").unwrap();
    assert_eq!(argv[bind + 1], "/home/me/.gitfetch/workspace/x");
    assert_eq!(argv[bind + 2], "/workspace");
    // Hooks are disabled at the tool-configuration level.
    let key = argv.iter().position(|a| a == "GIT_CONFIG_KEY_0").unwrap();
    assert_eq!(argv[key + 1], "core.hooksPath");
    let value = argv.iter().position(|a| a == "GIT_CONFIG_VALUE_0").unwrap();
    assert_eq!(argv[value + 1], "/dev/null");
    assert!(argv.contains(&"--clearenv".to_string()));
    assert!(argv.contains(&"--cap-drop".to_string()));
    assert!(argv.contains(&"--unshare-pid".to_string()));
}

#[test]
fn search_queries_distinguish_exact_repositories() {
    assert_eq!(build_search_query("mango"), "mango in:name");
    assert_eq!(build_search_query("a/b"), "repo:a/b");
}

#[test]
fn search_urls_are_percent_encoded() {
    assert_eq!(
        build_search_url("hello world"),
        "https://api.github.com/search/repositories?q=hello%20world%20in%3Aname&sort=stars&order=desc"
    );
    assert_eq!(
        build_search_url("a/b"),
        "https://api.github.com/search/repositories?q=repo%3Aa%2Fb&sort=stars&order=desc"
    );
}

#[test]
fn top_results_keep_the_leading_entries() {
    let mk = |n: &str| GitHubRepo {
        full_name: n.to_string(),
        html_url: format!("https://github.com/{}", n),
        description: None,
        stargazers_count: 1,
    };
    let resp = GitHubSearchResponse { items: vec![mk("a/x"), mk("b/y"), mk("c/z")] };
    let top = top_results(resp, 2);
    assert_eq!(top.len(), 2);
    assert_eq!(top[0].full_name, "a/x");
    assert_eq!(top[1].full_name, "b/y");
    let resp2 = GitHubSearchResponse { items: vec![mk("a/x")] };
    assert_eq!(top_results(resp2, 10).len(), 1);
}

#[test]
fn name_suggestions_filter_by_prefix() {
    let repos = vec![repo("alpha", "u1"), repo("beta", "u2"), repo("alps", "u3")];
    assert_eq!(
        complete_repo_suggestions(&repos, "al"),
        vec!["alpha".to_string(), "alps".to_string()]
    );
    assert_eq!(
        complete_repo_suggestions(&repos, ""),
        vec!["alpha".to_string(), "beta".to_string(), "alps".to_string()]
    );
    assert_eq!(complete_repo_suggestions(&repos, "zzz").len(), 0);
}

#[test]
fn clone_suggestions_shorten_well_known_urls() {
    let repos = vec![
        repo("tool", "https://github.com/owner/tool.git"),
        repo("other", "https://example.com/other"),
    ];
    assert_eq!(
        complete_clone_suggestions(&repos, "tool"),
        vec!["owner/tool".to_string()]
    );
    assert_eq!(
        complete_clone_suggestions(&repos, ""),
        vec!["owner/tool".to_string()]
    );
    assert_eq!(complete_clone_suggestions(&repos, "missing").len(), 0);
}
