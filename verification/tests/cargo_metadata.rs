use cat_repo_auditor::cargo_bins::{get_cargo_bins_all_inner, get_cargo_bins_inner};
use cat_repo_auditor::cargo_git::{
    check_cargo_git_install_inner_with_resolver, check_cargo_git_install_with_resolver_and_logger,
    format_checkout_dir_modified_at, resolve_checkout_subdir, CommandRun, DirEntryInfo,
    MetadataRead,
};
use cat_repo_auditor::cargo_install::CargoGitInstallCheck;

fn crates2_json(owner: &str, repo: &str, crate_name: &str, bins: &[&str]) -> String {
    let bins: Vec<String> = bins.iter().map(|b| format!("\"{b}\"")).collect();
    format!(
        "{{\"installs\":{{\"{crate_name} 0.1.0 (git+https://github.com/{owner}/{repo}#abc1234)\":{{\"version_req\":null,\"bins\":[{}],\"features\":[],\"all_features\":false,\"no_default_features\":false,\"profile\":\"release\",\"target\":\"x86_64-unknown-linux-gnu\",\"rustc\":\"rustc 1.80.0\"}}}}}}",
        bins.join(",")
    )
}

fn ok(stdout: &str) -> Result<CommandRun, String> {
    Ok(CommandRun {
        status_label: String::from("exit code: 0"),
        success: true,
        stdout: stdout.to_string(),
        stderr: String::new(),
    })
}

fn dir(name: &str, parent: &str, secs: u64) -> DirEntryInfo {
    DirEntryInfo {
        name: name.to_string(),
        path: format!("{parent}/{name}"),
        modified_secs: secs,
        modified_nanos: 0,
    }
}

const CHECKOUTS: &str = "/cargo/git/checkouts";

fn list_checkouts(path: &str) -> Result<Vec<DirEntryInfo>, String> {
    if path == CHECKOUTS {
        Ok(vec![dir("myrepo-0123abcd", CHECKOUTS, 1), dir("myrepo-tools-0123abcd", CHECKOUTS, 1)])
    } else if path == "/cargo/git/checkouts/myrepo-0123abcd" {
        Ok(vec![dir("old1111", path, 100), dir("new2222", path, 200)])
    } else {
        Err(format!("no such directory: {path}"))
    }
}

#[test]
fn get_cargo_bins_returns_installed_bins_for_matching_repo() {
    let json = crates2_json("owner", "myrepo", "catrepo", &["catrepo", "catrepo-helper"]);
    assert_eq!(
        get_cargo_bins_inner(Some(&json), "owner", "myrepo"),
        Some(vec![String::from("catrepo"), String::from("catrepo-helper")])
    );
}

#[test]
fn get_cargo_bins_returns_none_when_repo_is_not_installed() {
    let json = crates2_json("owner", "other-repo", "catrepo", &["catrepo"]);
    assert_eq!(get_cargo_bins_inner(Some(&json), "owner", "myrepo"), None);
    assert_eq!(get_cargo_bins_inner(None, "owner", "myrepo"), None);
    assert_eq!(get_cargo_bins_inner(Some("not json"), "owner", "myrepo"), None);
    assert_eq!(get_cargo_bins_inner(Some("{\"other\":{}}"), "owner", "myrepo"), None);
}

#[test]
fn get_cargo_bins_matches_git_url_with_dot_git_suffix() {
    let json = "{\"installs\":{\"tool 0.1.0 (git+https://github.com/owner/myrepo.git#abc)\":{\"bins\":[\"tool\",3]}}}";
    assert_eq!(
        get_cargo_bins_inner(Some(json), "owner", "myrepo"),
        Some(vec![String::from("tool")])
    );
}

#[test]
fn get_cargo_bins_all_collects_every_matching_entry_once() {
    let json = "{\"installs\":{\
        \"a 0.1.0 (git+https://github.com/owner/ws#abc)\":{\"bins\":[\"render\",\"shared\"]},\
        \"b 0.1.0 (git+https://github.com/owner/ws#abc)\":{\"bins\":[\"shared\",\"play\"]},\
        \"c 0.1.0 (git+https://github.com/owner/other#abc)\":{\"bins\":[\"other\"]}}}";
    assert_eq!(
        get_cargo_bins_all_inner(Some(json), "owner", "ws"),
        Some(vec![
            String::from("render"),
            String::from("shared"),
            String::from("play")
        ])
    );
    assert_eq!(get_cargo_bins_all_inner(Some(json), "owner", "missing"), None);
    let no_bins = "{\"installs\":{\"a 0.1.0 (git+https://github.com/owner/ws#abc)\":{}}}";
    assert_eq!(get_cargo_bins_all_inner(Some(no_bins), "owner", "ws"), Some(vec![]));
}

#[test]
fn cargo_install_returns_some_true_when_hashes_match() {
    let json = crates2_json("owner", "myrepo", "myrepo", &["myrepo"]);
    let mut logs: Vec<String> = Vec::new();
    let mut log = |m: &str| logs.push(m.to_string());
    let mut list = |p: &str| list_checkouts(p);
    let mut head = |p: &str| {
        if p == "/cargo/git/checkouts/myrepo-0123abcd/new2222" {
            ok("abc1234567\n")
        } else {
            ok("fedcba9\n")
        }
    };
    let mut remote = |_: &str, _: &str| ok("abc1234567\trefs/heads/main\n");
    let r = check_cargo_git_install_inner_with_resolver(
        "owner",
        "myrepo",
        "/cargo/.crates2.json",
        CHECKOUTS,
        "/repos/myrepo",
        MetadataRead::Read(json),
        &mut log,
        &mut list,
        &mut head,
        &mut remote,
    );
    assert_eq!(
        r,
        CargoGitInstallCheck::Checked {
            matches_remote: true,
            installed_hash: String::from("abc1234567"),
            local_hash: String::from("fedcba9"),
            remote_hash: String::from("abc1234567"),
        }
    );
    assert!(logs.iter().any(|m| m.contains("new2222")));
}

#[test]
fn cargo_install_returns_some_false_when_hashes_differ() {
    let json = crates2_json("owner", "myrepo", "myrepo", &["myrepo"]);
    let r = check_cargo_git_install_with_resolver_and_logger(
        "owner",
        "myrepo",
        "/cargo/.crates2.json",
        CHECKOUTS,
        "/repos/myrepo",
        MetadataRead::Read(json),
        |_: &str| {},
        |p: &str| list_checkouts(p),
        |_: &str| ok("abc1234567\n"),
        |_: &str, _: &str| ok("9999999\trefs/heads/main\n"),
    );
    assert_eq!(r.as_legacy_tuple().map(|t| t.0), Some(false));
}

#[test]
fn cargo_install_not_installed_and_failures() {
    let other = crates2_json("other", "other-repo", "other-repo", &["x"]);
    let run = |metadata: MetadataRead| {
        check_cargo_git_install_with_resolver_and_logger(
            "owner",
            "myrepo",
            "/cargo/.crates2.json",
            CHECKOUTS,
            "/repos/myrepo",
            metadata,
            |_: &str| {},
            |p: &str| list_checkouts(p),
            |_: &str| ok("abc1234567\n"),
            |_: &str, _: &str| Err(String::from("offline")),
        )
    };
    assert_eq!(run(MetadataRead::Read(other)), CargoGitInstallCheck::NotInstalled);
    assert_eq!(run(MetadataRead::NotFound), CargoGitInstallCheck::Failed);
    assert_eq!(run(MetadataRead::Read(String::from("{"))), CargoGitInstallCheck::Failed);
    let json = crates2_json("owner", "myrepo", "myrepo", &["myrepo"]);
    assert_eq!(run(MetadataRead::Read(json)), CargoGitInstallCheck::Failed);
}

#[test]
fn format_checkout_dir_modified_at_prints_rfc3339_millis() {
    assert_eq!(format_checkout_dir_modified_at(0, 0), "1970-01-01T00:00:00.000Z");
    assert_eq!(
        format_checkout_dir_modified_at(1_700_000_000, 123_000_000),
        "2023-11-14T22:13:20.123Z"
    );
}

fn entry_at(name: &str, path: &str, secs: u64) -> DirEntryInfo {
    DirEntryInfo {
        name: name.to_string(),
        path: path.to_string(),
        modified_secs: secs,
        modified_nanos: 0,
    }
}

#[test]
fn resolve_checkout_subdir_reports_missing_checkout() {
    let mut lines: Vec<String> = Vec::new();
    let mut log = |l: &str| lines.push(l.to_string());
    let mut list = |p: &str| -> Result<Vec<DirEntryInfo>, String> {
        assert_eq!(p, "/co");
        Ok(vec![entry_at("other-0123abcd", "/co/other-0123abcd", 1)])
    };
    let r = resolve_checkout_subdir(&mut log, "cat2151", "tool", "/co", "tool", "tool", &mut list);
    assert_eq!(r, None);
    assert!(lines
        .last()
        .unwrap()
        .ends_with("\"tool\" / \"tool\" に対応する checkout ディレクトリが見つかりません"));
}

#[test]
fn resolve_checkout_subdir_reports_ambiguous_checkout() {
    let mut lines: Vec<String> = Vec::new();
    let mut log = |l: &str| lines.push(l.to_string());
    let mut list = |_: &str| -> Result<Vec<DirEntryInfo>, String> {
        Ok(vec![
            entry_at("tool-0123abcd", "/co/tool-0123abcd", 1),
            entry_at("tool-89abcdef", "/co/tool-89abcdef", 2),
        ])
    };
    let r = resolve_checkout_subdir(&mut log, "cat2151", "tool", "/co", "tool", "", &mut list);
    assert_eq!(r, None);
    assert!(lines.last().unwrap().ends_with(
        "\"tool\" に対応する checkout ディレクトリが複数見つかりました: [\"/co/tool-0123abcd\", \"/co/tool-89abcdef\"]"
    ));
}

#[test]
fn resolve_checkout_subdir_picks_newest_subdir() {
    let mut lines: Vec<String> = Vec::new();
    let mut log = |l: &str| lines.push(l.to_string());
    let mut list = |p: &str| -> Result<Vec<DirEntryInfo>, String> {
        if p == "/co" {
            Ok(vec![entry_at("tool-0123abcd", "/co/tool-0123abcd", 1)])
        } else {
            Ok(vec![entry_at("aaa", "/co/tool-0123abcd/aaa", 5), entry_at("bbb", "/co/tool-0123abcd/bbb", 9)])
        }
    };
    let r = resolve_checkout_subdir(&mut log, "cat2151", "tool", "/co", "tool", "tool", &mut list);
    assert_eq!(r, Some(String::from("/co/tool-0123abcd/bbb")));
}
