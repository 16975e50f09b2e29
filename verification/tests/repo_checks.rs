use std::collections::{BTreeMap, HashMap};

use cat_repo_auditor::fetch::{GqlIssue, GqlPr, GqlRepo};
use cat_repo_auditor::fetch_run::{graphql_query, FetchRun, FetchStep, GqlPage};
use cat_repo_auditor::bin_check::BinCheckOutcome;
use cat_repo_auditor::cargo_install::CargoGitInstallCheck;
use cat_repo_auditor::history::{copy_cargo_state_to_history, run_cargo_repo_task, History};
use cat_repo_auditor::phase3::{
    apply_phase3_result_to_history, phase3_worker_count, Phase3RepoResult,
};
use cat_repo_auditor::pipeline::auto_pull_targets;
use cat_repo_auditor::types::{LocalStatus, RateLimit, RepoInfo};
use cat_repo_auditor::workflows::{
    check_deepwiki_exists, check_readme_ja_badge, check_workflows,
    collect_workflow_repo_exist_checks, FileEntry, WorkflowRepoExistRepo,
};

fn make_repo(name: &str, updated_at: &str, updated_at_raw: &str) -> RepoInfo {
    RepoInfo {
        name: String::from(name),
        full_name: format!("owner/{name}"),
        updated_at: String::from(updated_at),
        updated_at_raw: String::from(updated_at_raw),
        open_issues: 0,
        open_prs: 0,
        is_private: false,
        local_status: LocalStatus::Clean,
        has_local_git: true,
        staging_files: vec![],
        local_head_hash: String::new(),
        issues: vec![],
        prs: vec![],
        readme_ja: None,
        readme_ja_checked_at: String::new(),
        readme_ja_badge: None,
        readme_ja_badge_checked_at: String::new(),
        pages: None,
        pages_checked_at: String::new(),
        deepwiki: None,
        deepwiki_checked_at: String::new(),
        cargo_install: None,
        cargo_checked_at: String::new(),
        cargo_remote_hash: String::new(),
        cargo_remote_hash_checked_at: String::new(),
        cargo_installed_hash: String::new(),
        cargo_check_failed: false,
        cargo_bin_check: None,
        wf_workflows: None,
        wf_checked_at: String::new(),
    }
}

/// A small file tree: paths of files with their text, and directories.
struct FakeTree {
    files: BTreeMap<String, String>,
}

impl FakeTree {
    fn new(files: &[(&str, &str)]) -> Self {
        FakeTree {
            files: files.iter().map(|(p, c)| (p.to_string(), c.to_string())).collect(),
        }
    }

    fn has_path(&self, path: &str) -> bool {
        self.files.contains_key(path)
            || self.files.keys().any(|k| k.starts_with(&format!("{path}/")))
    }

    fn read(&self, path: &str) -> Option<String> {
        self.files.get(path).cloned()
    }

    fn list(&self, dir: &str) -> Result<Vec<FileEntry>, String> {
        let prefix = format!("{dir}/");
        Ok(self
            .files
            .keys()
            .filter_map(|k| k.strip_prefix(&prefix))
            .filter(|rest| !rest.contains('/'))
            .map(|name| FileEntry { name: Some(name.to_string()), is_file: true })
            .collect())
    }
}

const REQUIRED: [&str; 3] = [
    "call-translate-readme.yml",
    "call-issue-note.yml",
    "call-check-large-files.yml",
];

fn workflow_tree(files: &[&str]) -> FakeTree {
    let paths: Vec<(String, &str)> = files
        .iter()
        .map(|f| (format!("/tmp/base/myrepo/.github/workflows/{f}"), ""))
        .collect();
    let refs: Vec<(&str, &str)> = paths.iter().map(|(p, c)| (p.as_str(), *c)).collect();
    FakeTree::new(&refs)
}

#[test]
fn check_workflows_all_present_returns_true() {
    let tree = workflow_tree(&REQUIRED);
    assert!(check_workflows("/tmp/base", "myrepo", None, &|p: &str| tree.has_path(p)));
}

#[test]
fn check_workflows_missing_one_returns_false() {
    let tree = workflow_tree(&REQUIRED[..2]);
    assert!(!check_workflows("/tmp/base", "myrepo", None, &|p: &str| tree.has_path(p)));
}

#[test]
fn check_workflows_empty_dir_returns_false() {
    let tree = FakeTree::new(&[]);
    assert!(!check_workflows("/tmp/base", "myrepo", None, &|p: &str| tree.has_path(p)));
}

#[test]
fn check_workflows_cargo_requires_check_workflow() {
    let tree = workflow_tree(&REQUIRED);
    assert!(!check_workflows("/tmp/base", "myrepo", Some(true), &|p: &str| tree.has_path(p)));
}

#[test]
fn check_workflows_stale_cargo_with_check_workflow() {
    let mut files = REQUIRED.to_vec();
    files.push("call-rust-windows-cargo-check.yml");
    let tree = workflow_tree(&files);
    assert!(check_workflows("/tmp/base", "myrepo", Some(false), &|p: &str| tree.has_path(p)));
}

#[test]
fn check_deepwiki_exists_reads_readme_ja_then_readme() {
    let ja = FakeTree::new(&[("/tmp/base/myrepo/README.ja.md", "See https://deepwiki.com/o/r\n")]);
    assert!(check_deepwiki_exists("/tmp/base", "myrepo", &|p: &str| ja.read(p)));
    let none = FakeTree::new(&[("/tmp/base/myrepo/README.ja.md", "No links here\n")]);
    assert!(!check_deepwiki_exists("/tmp/base", "myrepo", &|p: &str| none.read(p)));
    let md = FakeTree::new(&[("/tmp/base/myrepo/README.md", "https://deepwiki.com/o/r\n")]);
    assert!(check_deepwiki_exists("/tmp/base", "myrepo", &|p: &str| md.read(p)));
    let empty = FakeTree::new(&[]);
    assert!(!check_deepwiki_exists("/tmp/base", "myrepo", &|p: &str| empty.read(p)));
}

#[test]
fn check_readme_ja_badge_finds_self_reference() {
    let t = FakeTree::new(&[("/tmp/base/myrepo/README.ja.md", "[![ja](README.ja.md)](README.ja.md)\n")]);
    assert!(check_readme_ja_badge("/tmp/base", "myrepo", &|p: &str| t.read(p)));
    let t = FakeTree::new(&[("/tmp/base/myrepo/README.ja.md", "No badge here\n")]);
    assert!(!check_readme_ja_badge("/tmp/base", "myrepo", &|p: &str| t.read(p)));
    let t = FakeTree::new(&[("/tmp/base/myrepo/README.md", "See README.ja.md\n")]);
    assert!(check_readme_ja_badge("/tmp/base", "myrepo", &|p: &str| t.read(p)));
}

fn exist_repo(name: &str, at: &str, raw: &str) -> WorkflowRepoExistRepo {
    WorkflowRepoExistRepo {
        name: String::from(name),
        updated_at: String::from(at),
        updated_at_raw: String::from(raw),
    }
}

#[test]
fn collect_workflow_repo_exist_checks_groups_installed_and_missing_repos() {
    let tree = FakeTree::new(&[
        ("/base/github-actions/.github/workflows/call-a.yml", "name: a\n"),
        ("/base/github-actions/.github/workflows/call-b.yml", "name: b\n"),
        ("/base/github-actions/.github/workflows/callg-bad.yml", "ignore\n"),
        ("/base/github-actions/.github/workflows/note.txt", "ignore\n"),
        ("/base/repo-a/.github/workflows/call-a.yml", "repo-a\n"),
        ("/base/repo-b/.github/workflows/call-a.yml", "repo-b\n"),
        ("/base/repo-b/.github/workflows/call-b.yml", "repo-b\n"),
    ]);
    let repos = vec![
        make_repo("repo-b", "today", "2026-03-28T00:00:00Z"),
        make_repo("github-actions", "3d", "2026-03-25T00:00:00Z"),
        make_repo("repo-a", "2w", "2026-03-14T00:00:00Z"),
    ];
    let mut list = |d: &str| tree.list(d);
    let checks =
        collect_workflow_repo_exist_checks("/base", &repos, &|p: &str| tree.has_path(p), &mut list)
            .unwrap();
    assert_eq!(checks.len(), 2);
    assert_eq!(checks[0].workflow_file, "call-a.yml");
    assert_eq!(
        checks[0].installed_repos,
        vec![
            exist_repo("repo-b", "today", "2026-03-28T00:00:00Z"),
            exist_repo("repo-a", "2w", "2026-03-14T00:00:00Z"),
        ]
    );
    assert!(checks[0].missing_repos.is_empty());
    assert_eq!(checks[1].workflow_file, "call-b.yml");
    assert_eq!(
        checks[1].installed_repos,
        vec![exist_repo("repo-b", "today", "2026-03-28T00:00:00Z")]
    );
    assert_eq!(
        checks[1].missing_repos,
        vec![exist_repo("repo-a", "2w", "2026-03-14T00:00:00Z")]
    );
}

#[test]
fn collect_workflow_repo_exist_checks_reports_missing_source() {
    let tree = FakeTree::new(&[]);
    let mut list = |d: &str| tree.list(d);
    let r = collect_workflow_repo_exist_checks("/base", &[], &|p: &str| tree.has_path(p), &mut list);
    assert_eq!(
        r,
        Err(String::from(
            "github-actions/.github/workflows が見つかりません: /base/github-actions/.github/workflows"
        ))
    );
}

#[test]
fn phase3_worker_count_caps_by_work_and_cores() {
    assert_eq!(phase3_worker_count(10, Some(8)), 8);
    assert_eq!(phase3_worker_count(3, Some(8)), 3);
    assert_eq!(phase3_worker_count(10, None), 4);
    assert_eq!(phase3_worker_count(0, None), 0);
}

#[test]
fn auto_pull_targets_pick_behind_and_diverged_dirty_clones() {
    let mut repos = vec![
        make_repo("behind", "", ""),
        make_repo("clean", "", ""),
        make_repo("dirty-same-head", "", ""),
        make_repo("dirty-old-head", "", ""),
    ];
    repos[0].local_status = LocalStatus::Pullable;
    repos[2].local_status = LocalStatus::Modified;
    repos[3].local_status = LocalStatus::Staging;
    let head_matches = |name: &str| name == "dirty-same-head";
    assert_eq!(auto_pull_targets(&repos, true, &head_matches), vec![0, 3]);
    assert!(auto_pull_targets(&repos, false, &head_matches).is_empty());
}

fn phase3_result(name: &str) -> Phase3RepoResult {
    Phase3RepoResult {
        name: String::from(name),
        local_status: LocalStatus::Modified,
        has_local_git: true,
        staging_files: vec![String::from(" M a.txt")],
        local_head_hash: String::from("abc"),
        readme_ja: Some(true),
        readme_ja_cat: String::from("t1"),
        readme_ja_badge: Some(false),
        readme_ja_badge_cat: String::from("t2"),
        pages: Some(true),
        pages_cat: String::from("t3"),
        deepwiki: None,
        deepwiki_cat: String::new(),
        wf_workflows: Some(true),
        wf_cat: String::from("t4"),
    }
}

#[test]
fn apply_phase3_result_to_history_updates_only_the_named_repo() {
    let mut history = History::default();
    history.repos = vec![make_repo("a", "", ""), make_repo("b", "", "")];
    apply_phase3_result_to_history(&mut history, &phase3_result("b"));
    assert_eq!(history.repos[0].local_status, LocalStatus::Clean);
    assert_eq!(history.repos[1].local_status, LocalStatus::Modified);
    assert_eq!(history.repos[1].readme_ja, Some(true));
    assert_eq!(history.repos[1].wf_checked_at, "t4");
    apply_phase3_result_to_history(&mut history, &phase3_result("missing"));
    assert_eq!(history.repos.len(), 2);
}

fn gql_repo(name: &str, updated: &str, prs: u64) -> GqlRepo {
    GqlRepo {
        name: String::from(name),
        name_with_owner: format!("owner/{name}"),
        updated_at: String::from(updated),
        is_fork: false,
        is_archived: false,
        is_private: false,
        issues_total: 1,
        issues: vec![GqlIssue {
            title: String::from("bug"),
            number: 7,
            updated_at: String::from(updated),
        }],
        prs_total: prs,
        prs: (0..prs)
            .map(|n| GqlPr {
                title: format!("pr {n}"),
                number: 10 + n,
                updated_at: String::from(updated),
                closing_issue_numbers: vec![7],
            })
            .collect(),
    }
}

fn rate(remaining: u64) -> RateLimit {
    RateLimit { remaining, limit: 5000, reset_at: String::from("2024-01-01T01:00:00Z") }
}

#[test]
fn graphql_query_adds_the_cursor_clause() {
    let first = graphql_query("cat", None);
    assert!(first.starts_with("query {\n  repositoryOwner(login: \"cat\") {"));
    assert!(first.contains("direction: DESC}) {\n      nodes {"));
    let later = graphql_query("cat", Some("Y3Vyc29y"));
    assert!(later.contains("direction: DESC}, after: \"Y3Vyc29y\") {"));
    assert!(later.ends_with("rateLimit { remaining limit resetAt }\n}"));
}

#[test]
fn fetch_run_reads_pages_and_sorts_the_list() {
    let mut history = History::default();
    let (mut run, q) = FetchRun::start("owner");
    assert_eq!(q, graphql_query("owner", None));
    let mut local = |_: &str| (LocalStatus::Clean, true, Vec::<String>::new());
    let mut head = |_: &str| String::from("head");
    let now = (1_710_498_600 + 3 * 86_400, 0);
    let mut fork = gql_repo("fork", "2024-03-15T10:30:00Z", 0);
    fork.is_fork = true;
    let page1 = GqlPage {
        repos: vec![gql_repo("quiet", "2024-03-15T10:30:00Z", 0), fork],
        has_next_page: true,
        end_cursor: Some(String::from("c1")),
        rate_limit: rate(4999),
    };
    let (step, etag) = run.on_page(&mut history, None, 0xabc, &page1, now, &mut local, &mut head);
    assert_eq!(etag, Some(String::from("abc")));
    match step {
        FetchStep::Next { query } => assert_eq!(query, graphql_query("owner", Some("c1"))),
        _ => panic!("expected the next page"),
    }
    assert_eq!(run.repos.len(), 1);
    assert_eq!(run.repos[0].updated_at, "3d");
    let page2 = GqlPage {
        repos: vec![gql_repo("busy", "2024-03-14T10:30:00Z", 2)],
        has_next_page: false,
        end_cursor: None,
        rate_limit: rate(4998),
    };
    let (step, etag) = run.on_page(&mut history, None, 0xdef, &page2, now, &mut local, &mut head);
    assert_eq!(etag, None);
    match step {
        FetchStep::Done { repos, rate_limit } => {
            let names: Vec<&str> = repos.iter().map(|r| r.name.as_str()).collect();
            assert_eq!(names, vec!["busy", "quiet"]);
            assert_eq!(rate_limit.remaining, 4998);
            assert_eq!(repos[0].prs[0].closes_issue, Some(7));
        }
        _ => panic!("expected the finished list"),
    }
    assert_eq!(history.repos.len(), 2);
    assert_eq!(history.rate_limit.as_ref().map(|r| r.remaining), Some(4998));
}

#[test]
fn fetch_run_serves_an_unchanged_first_page_from_the_cache() {
    let mut history = History::default();
    history.repos = vec![make_repo("cached", "1d", "2024-01-01T00:00:00Z")];
    history.etags = HashMap::new();
    let (mut run, _) = FetchRun::start("owner");
    let mut local = |_: &str| (LocalStatus::Clean, true, Vec::<String>::new());
    let mut head = |_: &str| String::new();
    let page = GqlPage {
        repos: vec![gql_repo("fresh", "2024-03-15T10:30:00Z", 0)],
        has_next_page: false,
        end_cursor: None,
        rate_limit: rate(10),
    };
    let cached = String::from("ff");
    let (step, etag) =
        run.on_page(&mut history, Some(&cached), 0xff, &page, (0, 0), &mut local, &mut head);
    assert_eq!(etag, None);
    match step {
        FetchStep::Cached { repos, rate_limit } => {
            assert_eq!(repos.len(), 1);
            assert_eq!(repos[0].name, "cached");
            assert_eq!(rate_limit.remaining, 10);
        }
        _ => panic!("expected the cached list"),
    }
    assert!(run.repos.is_empty());
}

#[test]
fn copy_cargo_state_to_history_updates_only_cargo_fields_of_the_named_repo() {
    let mut history = History::default();
    history.repos = vec![make_repo("a", "1d", "t"), make_repo("b", "2d", "t")];
    let mut polled = make_repo("b", "other", "other");
    polled.cargo_install = Some(true);
    polled.cargo_checked_at = String::from("local");
    polled.cargo_remote_hash = String::from("remote");
    polled.cargo_remote_hash_checked_at = String::from("when");
    polled.cargo_installed_hash = String::from("installed");
    copy_cargo_state_to_history(&mut history, &polled);
    assert_eq!(history.repos[1].cargo_install, Some(true));
    assert_eq!(history.repos[1].cargo_installed_hash, "installed");
    assert_eq!(history.repos[1].cargo_remote_hash_checked_at, "when");
    assert_eq!(history.repos[1].updated_at, "2d");
    assert_eq!(history.repos[0].cargo_install, None);
}

#[test]
fn run_cargo_repo_task_trusts_the_binary_report_over_the_checkout() {
    let repo = make_repo("tool", "1d", "2024-01-01T00:00:00Z");
    let mut notes = Vec::new();
    let result = run_cargo_repo_task(
        &repo,
        BinCheckOutcome::UpdateAvailable {
            embedded: String::from("aaa"),
            remote: String::from("bbb"),
        },
        || CargoGitInstallCheck::Checked {
            matches_remote: true,
            installed_hash: String::from("bbb"),
            local_hash: String::from("ccc"),
            remote_hash: String::from("bbb"),
        },
        |m: &str| notes.push(m.to_string()),
    );
    assert_eq!(result.name, "tool");
    assert_eq!(result.fields.cargo_install, Some(false));
    assert_eq!(result.fields.cargo_installed_hash, "aaa");
    assert_eq!(result.fields.cargo_remote_hash, "bbb");
    assert_eq!(result.fields.cargo_checked_at, "ccc");
    assert_eq!(result.fields.cargo_remote_hash_checked_at, "2024-01-01T00:00:00Z");
    assert_eq!(
        notes,
        vec![String::from(
            "参考: checkout HEAD=bbb は binary embedded=aaa と食い違います。binary self-report を採用します"
        )]
    );
    let skipped = run_cargo_repo_task(
        &repo,
        BinCheckOutcome::NotInstalled,
        || panic!("the checkout is not read for a repository that is not installed"),
        |_: &str| {},
    );
    assert_eq!(skipped.fields.cargo_install, None);
    assert!(!skipped.fields.cargo_check_failed);
}
