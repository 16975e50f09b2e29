use std::path::Path;

use cat_repo_auditor::cargo_install::{
    matches_checkout_dir_name, parse_cargo_install_entry, unique_checkout_name_candidates,
};
use cat_repo_auditor::config::Config;
use cat_repo_auditor::fetch::fnv1a;
use cat_repo_auditor::history::{sanitize_path_component, History};

fn file_name(p: &str) -> String {
    Path::new(p).file_name().unwrap().to_str().unwrap().to_string()
}

fn parent_name(p: &str) -> String {
    Path::new(p)
        .parent()
        .and_then(|p| p.file_name())
        .unwrap()
        .to_str()
        .unwrap()
        .to_string()
}

#[test]
fn config_history_path_ends_with_history_json() {
    let path = Config::history_path("/home/user/.config");
    assert_eq!(file_name(&path), "history.json");
}

#[test]
fn config_tests_history_path_ends_with_history_json() {
    let path = Config::history_path("/tmp/xdg");
    assert_eq!(file_name(&path), "history.json");
}

#[test]
fn log_path_ends_with_log_txt() {
    let path = Config::log_path("/home/user/.config");
    assert_eq!(file_name(&path), "log.txt");
    assert_eq!(parent_name(&path), "logs");
}

#[test]
fn cargo_check_after_auto_update_log_path_ends_with_expected_file_name() {
    let path = Config::cargo_check_after_auto_update_log_path("/home/user/.config");
    assert_eq!(file_name(&path), "cargo_check_after_auto_update.log");
    assert_eq!(parent_name(&path), "logs");
}

#[test]
fn config_path_sits_in_the_application_directory() {
    let path = Config::config_path("/home/user/.config");
    assert_eq!(path, "/home/user/.config/cat-repo-auditor/config.toml");
    assert_eq!(parent_name(&path), "cat-repo-auditor");
}

#[test]
fn resolved_app_run_dir_prefers_configured_then_desktop_then_dot() {
    let mut config = Config {
        owner: String::from("owner"),
        local_base_dir: String::from("/base"),
        app_run_dir: Some(String::from("/custom/dir")),
        auto_pull: false,
        auto_update: false,
    };
    let desktops = vec![String::from("C:\\Users\\me\\Desktop")];
    assert_eq!(config.resolved_app_run_dir(&desktops), "/custom/dir");
    config.app_run_dir = Some(String::new());
    assert_eq!(config.resolved_app_run_dir(&desktops), "C:\\Users\\me\\Desktop");
    config.app_run_dir = None;
    assert_eq!(config.resolved_app_run_dir(&[]), ".");
}

#[test]
fn fnv1a_is_deterministic() {
    assert_eq!(fnv1a("hello"), fnv1a("hello"));
    assert_ne!(fnv1a("hello"), fnv1a("world"));
}

#[test]
fn fnv1a_matches_reference_values() {
    assert_eq!(fnv1a(""), 0xcbf29ce484222325);
    assert_eq!(fnv1a("a"), 0xaf63dc4c8601ec8c);
}

#[test]
fn github_local_cargo_hash_parse_cargo_install_entry_extracts_crate_repo_and_revision_without_dot_git(
) {
    let metadata = parse_cargo_install_entry(
        "clap-mml-render-server 0.1.0 (git+https://github.com/cat2151/clap-mml-play-server#f7861234)",
    )
    .expect("metadata should parse");
    assert_eq!(metadata.crate_name, "clap-mml-render-server");
    assert_eq!(metadata.git_url, "https://github.com/cat2151/clap-mml-play-server");
    assert_eq!(metadata.repo_name, "clap-mml-play-server");
    assert_eq!(metadata.metadata_revision, "f7861234");
}

#[test]
fn github_local_cargo_hash_parse_cargo_install_entry_extracts_repo_name_with_dot_git_suffix() {
    let metadata = parse_cargo_install_entry(
        "cat-edit-mml 0.1.0 (git+https://github.com/cat2151/cat-edit-mml.git#d27b5678)",
    )
    .expect("metadata should parse");
    assert_eq!(metadata.crate_name, "cat-edit-mml");
    assert_eq!(metadata.git_url, "https://github.com/cat2151/cat-edit-mml.git");
    assert_eq!(metadata.repo_name, "cat-edit-mml");
    assert_eq!(metadata.metadata_revision, "d27b5678");
}

#[test]
fn github_local_cargo_hash_metadata_parse_cargo_install_entry_extracts_crate_repo_and_revision_without_dot_git(
) {
    let metadata = parse_cargo_install_entry(
        "clap-mml-render-server 0.1.0 (git+https://github.com/cat2151/clap-mml-play-server#f7861234)",
    )
    .expect("metadata should parse");
    assert_eq!(metadata.crate_name, "clap-mml-render-server");
    assert_eq!(metadata.git_url, "https://github.com/cat2151/clap-mml-play-server");
    assert_eq!(metadata.repo_name, "clap-mml-play-server");
    assert_eq!(metadata.metadata_revision, "f7861234");
}

#[test]
fn github_local_cargo_hash_metadata_parse_cargo_install_entry_extracts_repo_name_with_dot_git_suffix(
) {
    let metadata = parse_cargo_install_entry(
        "cat-edit-mml 0.1.0 (git+https://github.com/cat2151/cat-edit-mml.git#d27b5678)",
    )
    .expect("metadata should parse");
    assert_eq!(metadata.crate_name, "cat-edit-mml");
    assert_eq!(metadata.git_url, "https://github.com/cat2151/cat-edit-mml.git");
    assert_eq!(metadata.repo_name, "cat-edit-mml");
    assert_eq!(metadata.metadata_revision, "d27b5678");
}

#[test]
fn parse_cargo_install_entry_rejects_registry_and_malformed_entries() {
    assert!(parse_cargo_install_entry("ripgrep 14.1.0 (registry+https://github.com/rust-lang/crates.io-index)").is_none());
    assert!(parse_cargo_install_entry("").is_none());
    assert!(parse_cargo_install_entry("name 0.1.0 (git+https://github.com/o/r)").is_none());
}

#[test]
fn unique_checkout_name_candidates_prefers_repo_name_then_crate_name() {
    assert_eq!(
        unique_checkout_name_candidates("clap-mml-play-server", "clap-mml-render-server"),
        vec!["clap-mml-play-server", "clap-mml-render-server"]
    );
}

#[test]
fn unique_checkout_name_candidates_deduplicates_same_name() {
    assert_eq!(
        unique_checkout_name_candidates("own-repos-curator", "own-repos-curator"),
        vec!["own-repos-curator"]
    );
}

#[test]
fn unique_checkout_name_candidates_skips_empty_names() {
    assert_eq!(unique_checkout_name_candidates("", "app"), vec!["app"]);
    assert!(unique_checkout_name_candidates("", "").is_empty());
}

#[test]
fn matches_checkout_dir_name_accepts_exact_name() {
    assert!(matches_checkout_dir_name("own-repos-curator", "own-repos-curator"));
}

#[test]
fn matches_checkout_dir_name_accepts_hash_suffix() {
    assert!(matches_checkout_dir_name("own-repos-curator-deadbeef", "own-repos-curator"));
}

#[test]
fn matches_checkout_dir_name_rejects_similar_repo_name() {
    assert!(!matches_checkout_dir_name(
        "own-repos-curator-to-hatena-deadbeef",
        "own-repos-curator"
    ));
}

#[test]
fn matches_checkout_dir_name_rejects_non_hash_suffix() {
    assert!(!matches_checkout_dir_name("own-repos-curator-to", "own-repos-curator"));
}

#[test]
fn sanitize_path_component_replaces_windows_invalid_characters() {
    assert_eq!(
        sanitize_path_component("history::tests/save_and_load_roundtrip"),
        "history__tests_save_and_load_roundtrip"
    );
}

#[test]
fn sanitize_path_component_names_empty_input() {
    assert_eq!(sanitize_path_component(""), "unnamed");
    assert_eq!(sanitize_path_component("日本"), "__");
}

#[test]
fn default_history_has_empty_fields() {
    let history = History::default();
    assert!(history.etags.is_empty());
    assert!(history.repos.is_empty());
    assert!(history.rate_limit.is_none());
}
