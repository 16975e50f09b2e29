use std::cell::RefCell;

use cat_repo_auditor::cargo_git::CommandRun;
use cat_repo_auditor::git_ops::{GitRunner, git_pull, local_head_matches_upstream_with_logger, run_git_result};
use cat_repo_auditor::git_status::{
    build_repo_path, check_local_repo_state_no_fetch, check_local_status_no_fetch, parse_porcelain,
    parse_tracking_counts, tracking_from_counts,
};
use cat_repo_auditor::types::{GitTrackingStatus, LocalStatus};

fn ok(stdout: &str) -> Result<CommandRun, String> {
    Ok(CommandRun {
        status_label: String::from("exit code: 0"),
        success: true,
        stdout: stdout.to_string(),
        stderr: String::new(),
    })
}

fn failed(stdout: &str, stderr: &str) -> Result<CommandRun, String> {
    Ok(CommandRun {
        status_label: String::from("exit code: 1"),
        success: false,
        stdout: stdout.to_string(),
        stderr: stderr.to_string(),
    })
}

/// A fake `git` that answers by the joined arguments and records each call.
struct FakeGit {
    answers: Vec<(String, Result<CommandRun, String>)>,
    calls: RefCell<Vec<String>>,
}

impl FakeGit {
    fn new(answers: Vec<(&str, Result<CommandRun, String>)>) -> Self {
        FakeGit {
            answers: answers.into_iter().map(|(k, v)| (k.to_string(), v)).collect(),
            calls: RefCell::new(Vec::new()),
        }
    }

    fn run(&self, path: &str, args: &Vec<String>) -> Result<CommandRun, String> {
        let joined = args.join(" ");
        self.calls.borrow_mut().push(format!("{path}: {joined}"));
        for (k, v) in &self.answers {
            if *k == joined {
                return v.clone_run();
            }
        }
        Err(format!("unexpected git {joined}"))
    }
}

trait CloneRun {
    fn clone_run(&self) -> Self;
}

impl CloneRun for Result<CommandRun, String> {
    fn clone_run(&self) -> Self {
        match self {
            Ok(r) => Ok(CommandRun {
                status_label: r.status_label.clone(),
                success: r.success,
                stdout: r.stdout.clone(),
                stderr: r.stderr.clone(),
            }),
            Err(e) => Err(e.clone()),
        }
    }
}

#[test]
fn parse_porcelain_classifies_conflict_staged_and_modified() {
    let c = parse_porcelain(" M src/lib.rs\nA  new.rs\n?? notes.txt\n");
    assert!(!c.has_conflict);
    assert!(c.has_staged);
    assert!(c.has_modified);
    assert_eq!(c.files, vec![" M src/lib.rs", "A  new.rs", "?? notes.txt"]);
    let c = parse_porcelain("UU both.rs\n");
    assert!(c.has_conflict);
    let c = parse_porcelain("");
    assert!(!c.has_conflict && !c.has_staged && !c.has_modified);
    assert!(c.files.is_empty());
}

#[test]
fn parse_tracking_counts_reads_ahead_and_behind() {
    assert_eq!(parse_tracking_counts("2\t5\n"), Some((2, 5)));
    assert_eq!(parse_tracking_counts("0 0"), Some((0, 0)));
    assert_eq!(parse_tracking_counts("x 1"), None);
    assert_eq!(parse_tracking_counts("1"), None);
}

#[test]
fn tracking_from_counts_names_each_relation() {
    assert_eq!(tracking_from_counts(0, 0), GitTrackingStatus::Synced);
    assert_eq!(tracking_from_counts(3, 0), GitTrackingStatus::Ahead { commits: 3 });
    assert_eq!(tracking_from_counts(0, 4), GitTrackingStatus::Behind { commits: 4 });
    assert_eq!(
        tracking_from_counts(1, 2),
        GitTrackingStatus::Diverged { ahead: 1, behind: 2 }
    );
}

#[test]
fn build_repo_path_joins_with_one_separator() {
    assert_eq!(build_repo_path("/repos/", "app"), "/repos/app");
    assert_eq!(build_repo_path("/repos", "app"), "/repos/app");
}

#[test]
fn run_git_result_prefers_stderr_then_stdout() {
    assert_eq!(run_git_result(ok("  done \n"), "ctx"), Ok(String::from("done")));
    assert_eq!(run_git_result(failed("out", " err "), "ctx"), Err(String::from("err")));
    assert_eq!(run_git_result(failed(" out ", ""), "ctx"), Err(String::from("out")));
    assert_eq!(
        run_git_result(Err(String::from("not found")), "git pull failed"),
        Err(String::from("git pull failed: not found"))
    );
}

fn exists_all(_: &str) -> bool {
    true
}

#[test]
fn check_local_status_reports_modified_before_pullable() {
    let git = FakeGit::new(vec![
        ("status --porcelain", ok(" M file.txt\n")),
        ("rev-parse --verify HEAD", ok("abc\n")),
        ("rev-parse --verify @{u}", ok("def\n")),
        ("rev-list --left-right --count HEAD...@{u}", ok("0\t1\n")),
    ]);
    let mut run = |p: &str, a: &Vec<String>| git.run(p, a);
    let (status, has_git, files) =
        check_local_status_no_fetch("/repos", "myrepo", &exists_all, &mut run);
    assert_eq!(status, LocalStatus::Modified);
    assert!(has_git);
    assert_eq!(files, vec![" M file.txt"]);
}

#[test]
fn check_local_status_reports_pullable_when_clean_and_behind() {
    let git = FakeGit::new(vec![
        ("status --porcelain", ok("")),
        ("rev-parse --verify HEAD", ok("abc\n")),
        ("rev-parse --verify @{u}", ok("def\n")),
        ("rev-list --left-right --count HEAD...@{u}", ok("0\t2\n")),
    ]);
    let mut run = |p: &str, a: &Vec<String>| git.run(p, a);
    let state = check_local_repo_state_no_fetch("/repos", "myrepo", &exists_all, &mut run);
    assert_eq!(state.local_status, LocalStatus::Pullable);
    assert_eq!(state.tracking_status, GitTrackingStatus::Behind { commits: 2 });
    assert!(state.has_local_git);
}

#[test]
fn check_local_repo_state_reports_no_upstream() {
    let git = FakeGit::new(vec![
        ("status --porcelain", ok("")),
        ("rev-parse --verify HEAD", ok("abc\n")),
        ("rev-parse --verify @{u}", failed("", "fatal: no upstream")),
    ]);
    let mut run = |p: &str, a: &Vec<String>| git.run(p, a);
    let state = check_local_repo_state_no_fetch("/repos", "myrepo", &exists_all, &mut run);
    assert_eq!(state.tracking_status, GitTrackingStatus::NoUpstream);
    assert_eq!(state.local_status, LocalStatus::Other);
}

#[test]
fn check_local_repo_state_distinguishes_missing_clone_and_missing_git() {
    let git = FakeGit::new(vec![]);
    let mut run = |p: &str, a: &Vec<String>| git.run(p, a);
    let none = |_: &str| false;
    let state = check_local_repo_state_no_fetch("/repos", "myrepo", &none, &mut run);
    assert_eq!(state.local_status, LocalStatus::NotFound);
    assert!(!state.has_local_git);
    let dir_only = |p: &str| !p.ends_with("/.git");
    let state = check_local_repo_state_no_fetch("/repos", "myrepo", &dir_only, &mut run);
    assert_eq!(state.local_status, LocalStatus::NoGit);
    assert!(git.calls.borrow().is_empty());
}

#[test]
fn check_local_status_reports_conflict() {
    let git = FakeGit::new(vec![
        ("status --porcelain", ok("UU conflict.txt\n")),
        ("rev-parse --verify HEAD", ok("abc\n")),
        ("rev-parse --verify @{u}", ok("abc\n")),
        ("rev-list --left-right --count HEAD...@{u}", ok("0\t0\n")),
    ]);
    let mut run = |p: &str, a: &Vec<String>| git.run(p, a);
    let (status, _, _) = check_local_status_no_fetch("/repos", "myrepo", &exists_all, &mut run);
    assert_eq!(status, LocalStatus::Conflict);
}

#[test]
fn git_pull_fast_forwards_clean_clone() {
    let git = FakeGit::new(vec![
        ("status --porcelain", ok("")),
        ("pull --ff-only", ok("Updating a..b\nFast-forward\n")),
    ]);
    let mut run = GitRunner::new(|p: &str, a: &Vec<String>| git.run(p, a));
    let r = git_pull("/repos", "myrepo", &mut run);
    assert_eq!(r, Ok(String::from("Updating a..b\nFast-forward")));
    assert_eq!(
        *git.calls.borrow(),
        vec!["/repos/myrepo: status --porcelain", "/repos/myrepo: pull --ff-only"]
    );
}

#[test]
fn git_pull_stashes_modified_changes_and_restores_them() {
    let git = FakeGit::new(vec![
        ("status --porcelain", ok(" M tracked.txt\n")),
        ("stash push --include-untracked -m catrepo auto-pull", ok("Saved\n")),
        ("pull --ff-only", ok("Fast-forward\n")),
        ("stash pop", ok("restored\n")),
    ]);
    let mut run = GitRunner::new(|p: &str, a: &Vec<String>| git.run(p, a));
    let r = git_pull("/repos", "myrepo", &mut run);
    assert_eq!(r, Ok(String::from("restored")));
    assert_eq!(git.calls.borrow().len(), 4);
}

#[test]
fn git_pull_reports_pull_failure_after_restoring_stash() {
    let git = FakeGit::new(vec![
        ("status --porcelain", ok("M  staged.txt\n")),
        ("stash push --include-untracked -m catrepo auto-pull", ok("Saved\n")),
        ("pull --ff-only", failed("", "fatal: Not possible to fast-forward")),
        ("stash pop", ok("")),
    ]);
    let mut run = GitRunner::new(|p: &str, a: &Vec<String>| git.run(p, a));
    let r = git_pull("/repos", "myrepo", &mut run);
    assert_eq!(
        r,
        Err(String::from(
            "fatal: Not possible to fast-forward; stashed local changes were restored"
        ))
    );
}

#[test]
fn git_pull_marks_repo_conflict_when_stash_pop_conflicts() {
    let git = FakeGit::new(vec![
        ("status --porcelain", ok(" M tracked.txt\n")),
        ("stash push --include-untracked -m catrepo auto-pull", ok("Saved\n")),
        ("pull --ff-only", ok("Fast-forward\n")),
        ("stash pop", failed("CONFLICT (content)", "")),
    ]);
    let mut run = GitRunner::new(|p: &str, a: &Vec<String>| git.run(p, a));
    let r = git_pull("/repos", "myrepo", &mut run);
    assert_eq!(r, Err(String::from("CONFLICT (content)")));
}

#[test]
fn git_pull_refuses_conflicted_clone() {
    let git = FakeGit::new(vec![("status --porcelain", ok("AA both.txt\n"))]);
    let mut run = GitRunner::new(|p: &str, a: &Vec<String>| git.run(p, a));
    let r = git_pull("/repos", "myrepo", &mut run);
    assert_eq!(r, Err(String::from("repository has unresolved conflicts")));
    assert_eq!(git.calls.borrow().len(), 1);
}

#[test]
fn local_head_matches_upstream_logs_start_hashes_and_result() {
    let git = FakeGit::new(vec![
        ("rev-parse HEAD", ok("1111111\n")),
        ("rev-parse @{u}", ok("1111111\n")),
    ]);
    let mut run = |p: &str, a: &Vec<String>| git.run(p, a);
    let mut logs = Vec::new();
    let matches = local_head_matches_upstream_with_logger(
        "/tmp/repos",
        "myrepo",
        |msg: &str| logs.push(msg.to_string()),
        &mut run,
    );
    assert!(matches);
    assert!(logs.iter().any(|msg| {
        msg.contains("local repo check:")
            && msg.contains("リポジトリ=myrepo")
            && msg.contains("開始: ローカルとリモートのコミットハッシュ比較を開始します")
    }));
    assert!(logs.iter().any(|msg| {
        msg.contains("ローカルのコミットハッシュ取得を開始します")
            && msg.contains("git -C")
            && msg.contains("rev-parse HEAD")
    }));
    assert!(logs
        .iter()
        .any(|msg| msg.contains("ローカルのコミットハッシュを取得しました:")));
    assert!(logs.iter().any(|msg| {
        msg.contains("リモートから取得したコミットハッシュの取得を開始します")
            && msg.contains("rev-parse @{u}")
    }));
    assert!(logs
        .iter()
        .any(|msg| msg.contains("リモートから取得したコミットハッシュを取得しました:")));
    assert!(logs
        .iter()
        .any(|msg| msg.contains("ローカルとリモートのコミットハッシュ比較結果=一致")));
    assert!(logs.iter().any(|msg| {
        msg.contains("終了: ローカル repo check を完了しました") && msg.contains("比較結果=一致")
    }));
}

#[test]
fn local_head_matches_upstream_returns_false_after_remote_advances() {
    let git = FakeGit::new(vec![
        ("rev-parse HEAD", ok("1111111\n")),
        ("rev-parse @{u}", ok("2222222\n")),
    ]);
    let mut run = |p: &str, a: &Vec<String>| git.run(p, a);
    let matches =
        local_head_matches_upstream_with_logger("/tmp/repos", "myrepo", |_: &str| {}, &mut run);
    assert!(!matches);
}
