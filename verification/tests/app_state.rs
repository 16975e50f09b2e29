use cat_repo_auditor::app::App;
use cat_repo_auditor::app_cargo_ng::collect_cargo_ng_items;
use cat_repo_auditor::app_polls::{CARGO_HASH_POLL_INTERVAL, CARGO_HASH_POLL_TIMEOUT};
use cat_repo_auditor::config::Config;
use cat_repo_auditor::rows::{Focus, RepoRow, SearchState};
use cat_repo_auditor::types::{AutoUpdateLaunchRequest, IssueOrPr, LocalStatus, RepoInfo};
use cat_repo_auditor::workflows::{WorkflowRepoExistCheck, WorkflowRepoExistRepo};

fn make_config() -> Config {
    Config {
        owner: String::from("owner"),
        local_base_dir: String::from("/base"),
        app_run_dir: None,
        auto_pull: false,
        auto_update: false,
    }
}

fn make_repo(name: &str) -> RepoInfo {
    RepoInfo {
        name: name.to_string(),
        full_name: format!("owner/{name}"),
        updated_at: String::from("2024-01-01"),
        updated_at_raw: String::from("2024-01-01T00:00:00Z"),
        open_issues: 0,
        open_prs: 0,
        is_private: false,
        local_status: LocalStatus::Clean,
        has_local_git: true,
        staging_files: vec![],
        local_head_hash: String::new(),
        issues: vec![],
        prs: vec![],
        readme_ja: None,
        readme_ja_checked_at: String::new(),
        readme_ja_badge: None,
        readme_ja_badge_checked_at: String::new(),
        pages: None,
        pages_checked_at: String::new(),
        deepwiki: None,
        deepwiki_checked_at: String::new(),
        cargo_install: None,
        cargo_checked_at: String::new(),
        cargo_remote_hash: String::new(),
        cargo_remote_hash_checked_at: String::new(),
        cargo_installed_hash: String::new(),
        cargo_check_failed: false,
        cargo_bin_check: None,
        wf_workflows: None,
        wf_checked_at: String::new(),
    }
}

fn make_issue(number: u64, title: &str, repo_full: &str) -> IssueOrPr {
    IssueOrPr {
        title: title.to_string(),
        updated_at: String::from("2024-01-01"),
        updated_at_raw: String::from("2024-01-01T00:00:00Z"),
        number,
        repo_full: repo_full.to_string(),
        is_pr: false,
        closes_issue: None,
    }
}

fn make_pr(number: u64, title: &str, repo_full: &str, closes: Option<u64>) -> IssueOrPr {
    IssueOrPr {
        title: title.to_string(),
        updated_at: String::from("2024-01-01"),
        updated_at_raw: String::from("2024-01-01T00:00:00Z"),
        number,
        repo_full: repo_full.to_string(),
        is_pr: true,
        closes_issue: closes,
    }
}

fn make_active_repo(name: &str) -> RepoInfo {
    let mut r = make_repo(name);
    r.open_prs = 1;
    r
}

/// `n` seconds as nanoseconds since the epoch.
fn secs(n: i128) -> i128 {
    n * 1_000_000_000
}

fn repo_count(app: &App) -> usize {
    app.filtered_rows
        .iter()
        .filter(|r| matches!(r, RepoRow::Repo(_)))
        .count()
}

fn app_with(repos: Vec<RepoInfo>) -> App {
    let mut app = App::new(make_config());
    app.repos = repos;
    app.rebuild_rows();
    app
}

fn ng_repo(name: &str) -> RepoInfo {
    let mut repo = make_repo(name);
    repo.cargo_bin_check = Some(false);
    repo.cargo_installed_hash = String::from("4ecf42e931e9dc3af0dd89bd53351676a2899a23");
    repo.cargo_remote_hash = String::from("47049c0fe70d57e233d8943a4abab5bf780621bc");
    repo
}

fn ok_repo(name: &str) -> RepoInfo {
    let mut repo = make_repo(name);
    repo.cargo_bin_check = Some(true);
    repo.cargo_installed_hash = String::from("47049c0fe70d57e233d8943a4abab5bf780621bc");
    repo.cargo_remote_hash = String::from("47049c0fe70d57e233d8943a4abab5bf780621bc");
    repo
}

#[test]
fn repo_move_down_advances_cursor() {
    let mut app = App::new(make_config());
    app.repos = vec![
        make_active_repo("a"),
        make_active_repo("b"),
        make_active_repo("c"),
    ];
    app.rebuild_rows();
    assert_eq!(app.row_cursor, 0);
    app.repo_move_down(1);
    assert_eq!(app.row_cursor, 1);
    app.repo_move_down(1);
    assert_eq!(app.row_cursor, 2);
}

#[test]
fn repo_move_down_stops_at_last() {
    let mut app = App::new(make_config());
    app.repos = vec![make_active_repo("a"), make_active_repo("b")];
    app.rebuild_rows();
    app.repo_move_down(10);
    assert_eq!(app.row_cursor, 1);
}

#[test]
fn repo_move_up_decrements_cursor() {
    let mut app = App::new(make_config());
    app.repos = vec![
        make_active_repo("a"),
        make_active_repo("b"),
        make_active_repo("c"),
    ];
    app.rebuild_rows();
    app.repo_move_down(2);
    assert_eq!(app.row_cursor, 2);
    app.repo_move_up(1);
    assert_eq!(app.row_cursor, 1);
}

#[test]
fn repo_move_up_stays_at_top() {
    let mut app = App::new(make_config());
    app.repos = vec![make_active_repo("a"), make_active_repo("b")];
    app.rebuild_rows();
    app.repo_move_up(10);
    assert_eq!(app.row_cursor, 0);
}

#[test]
fn selected_repo_idx_returns_correct_index() {
    let mut app = App::new(make_config());
    app.repos = vec![
        make_active_repo("a"),
        make_active_repo("b"),
        make_active_repo("c"),
    ];
    app.rebuild_rows();
    assert_eq!(app.selected_repo_idx(), Some(0));
    app.repo_move_down(1);
    assert_eq!(app.selected_repo_idx(), Some(1));
    app.repo_move_down(1);
    assert_eq!(app.selected_repo_idx(), Some(2));
}

#[test]
fn selected_repo_returns_repo_info() {
    let mut app = App::new(make_config());
    app.repos = vec![make_active_repo("alpha"), make_active_repo("beta")];
    app.rebuild_rows();
    assert_eq!(app.selected_repo().unwrap().name, "alpha");
    app.repo_move_down(1);
    assert_eq!(app.selected_repo().unwrap().name, "beta");
}


#[test]
fn push_digit_builds_number() {
    let mut app = App::new(make_config());
    app.push_digit(1);
    app.push_digit(2);
    app.push_digit(3);
    assert_eq!(app.num_prefix, 123);
}

#[test]
fn consume_prefix_returns_one_when_zero() {
    let mut app = App::new(make_config());
    assert_eq!(app.consume_prefix(), 1);
    assert_eq!(app.num_prefix, 0);
}

#[test]
fn consume_prefix_returns_value_and_resets() {
    let mut app = App::new(make_config());
    app.push_digit(5);
    assert_eq!(app.consume_prefix(), 5);
    assert_eq!(app.num_prefix, 0);
}


#[test]
fn detail_move_down_and_up() {
    let mut app = App::new(make_config());
    let mut repo = make_repo("a");
    repo.open_issues = 2;
    repo.issues = vec![
        make_issue(1, "issue1", "owner/a"),
        make_issue(2, "issue2", "owner/a"),
    ];
    app.repos = vec![repo];
    app.rebuild_rows();
    assert_eq!(app.detail_selected, 0);
    app.detail_move_down(1);
    assert_eq!(app.detail_selected, 1);
    app.detail_move_up(1);
    assert_eq!(app.detail_selected, 0);
}

#[test]
fn detail_move_down_stops_at_last() {
    let mut app = App::new(make_config());
    let mut repo = make_repo("a");
    repo.open_issues = 2;
    repo.issues = vec![
        make_issue(1, "i1", "owner/a"),
        make_issue(2, "i2", "owner/a"),
    ];
    app.repos = vec![repo];
    app.rebuild_rows();
    app.detail_move_down(100);
    assert_eq!(app.detail_selected, 1);
}

#[test]
fn detail_move_up_stays_at_zero() {
    let mut app = App::new(make_config());
    let mut repo = make_repo("a");
    repo.issues = vec![make_issue(1, "i1", "owner/a")];
    app.repos = vec![repo];
    app.rebuild_rows();
    app.detail_move_up(10);
    assert_eq!(app.detail_selected, 0);
}

#[test]
fn selected_detail_url_returns_issue_url() {
    let mut app = App::new(make_config());
    let mut repo = make_repo("a");
    repo.issues = vec![make_issue(42, "title", "owner/a")];
    app.repos = vec![repo];
    app.rebuild_rows();
    let url = app.selected_detail_url().unwrap();
    assert_eq!(url, "https://github.com/owner/a/issues/42");
}

#[test]
fn selected_detail_url_returns_pr_url() {
    let mut app = App::new(make_config());
    let mut repo = make_repo("a");
    repo.prs = vec![make_pr(7, "fix", "owner/a", None)];
    app.repos = vec![repo];
    app.rebuild_rows();
    let url = app.selected_detail_url().unwrap();
    assert_eq!(url, "https://github.com/owner/a/pull/7");
}


#[test]
fn adjust_row_scroll_scrolls_down_when_cursor_out_of_view() {
    let mut app = App::new(make_config());
    app.repos = (0..10).map(|i| make_repo(&format!("r{i}"))).collect();
    app.rebuild_rows();
    app.row_cursor = 7;
    app.row_scroll = 0;
    app.adjust_row_scroll(5);
    assert_eq!(app.row_scroll, 3);
}

#[test]
fn adjust_row_scroll_scrolls_up_when_cursor_above_view() {
    let mut app = App::new(make_config());
    app.repos = (0..10).map(|i| make_repo(&format!("r{i}"))).collect();
    app.rebuild_rows();
    app.row_cursor = 2;
    app.row_scroll = 5;
    app.adjust_row_scroll(5);
    assert_eq!(app.row_scroll, 2);
}

#[test]
fn focus_detail_first_pr_or_issue_jumps_to_first_pr() {
    let mut app = App::new(make_config());
    let mut repo = make_repo("a");
    repo.issues = vec![make_issue(1, "issue", "owner/a")];
    repo.prs = vec![make_pr(2, "pr", "owner/a", None)];
    app.repos = vec![repo];
    app.rebuild_rows();
    app.focus_detail_first_pr_or_issue();
    assert_eq!(app.focus, Focus::Detail);
    let url = app.selected_detail_url().unwrap();
    assert!(url.contains("/pull/"), "should point to PR, got: {url}");
}

#[test]
fn toggle_log_switches_visibility() {
    let mut app = App::new(make_config());
    assert!(!app.show_log);
    app.toggle_log();
    assert!(app.show_log);
    app.toggle_log();
    assert!(!app.show_log);
}

#[test]
fn append_log_line_adds_line() {
    let mut app = App::new(make_config());
    app.append_log_line(String::from("line1"));
    app.append_log_line(String::from("line2"));
    assert_eq!(app.log_lines, vec!["line1", "line2"]);
}

#[test]
fn append_log_line_caps_history() {
    let mut app = App::new(make_config());
    for i in 0..2_100 {
        app.append_log_line(format!("line{i}"));
    }
    assert_eq!(app.log_lines.len(), 2_000);
    assert_eq!(app.log_lines.first().unwrap(), "line100");
    assert_eq!(app.log_lines.last().unwrap(), "line2099");
}

#[test]
fn set_log_lines_caps_history() {
    let mut app = App::new(make_config());
    let lines: Vec<String> = (0..2_100).map(|i| format!("line{i}")).collect();
    app.set_log_lines(lines);
    assert_eq!(app.log_lines.len(), 2_000);
    assert_eq!(app.log_lines.first().unwrap(), "line100");
    assert_eq!(app.log_lines.last().unwrap(), "line2099");
}

#[test]
fn workflow_repo_exist_open_and_select() {
    let mut app = App::new(make_config());
    let items = vec![
        WorkflowRepoExistCheck {
            workflow_file: String::from("call-a.yml"),
            installed_repos: vec![WorkflowRepoExistRepo {
                name: String::from("repo-a"),
                updated_at: String::from("today"),
                updated_at_raw: String::from("2026-03-28T00:00:00Z"),
            }],
            missing_repos: vec![WorkflowRepoExistRepo {
                name: String::from("repo-b"),
                updated_at: String::from("2d"),
                updated_at_raw: String::from("2026-03-26T00:00:00Z"),
            }],
        },
        WorkflowRepoExistCheck {
            workflow_file: String::from("call-b.yml"),
            installed_repos: vec![WorkflowRepoExistRepo {
                name: String::from("repo-b"),
                updated_at: String::from("2d"),
                updated_at_raw: String::from("2026-03-26T00:00:00Z"),
            }],
            missing_repos: vec![WorkflowRepoExistRepo {
                name: String::from("repo-a"),
                updated_at: String::from("today"),
                updated_at_raw: String::from("2026-03-28T00:00:00Z"),
            }],
        },
    ];

    app.open_workflow_repo_exist(items);
    app.workflow_repo_exist_move_down(1);

    assert!(app.show_workflow_repo_exist);
    assert_eq!(
        app.selected_workflow_repo_exist().unwrap().workflow_file,
        "call-b.yml"
    );
}

#[test]
fn adjust_workflow_repo_exist_scroll_tracks_selection() {
    let mut app = App::new(make_config());
    app.open_workflow_repo_exist(
        (0..4)
            .map(|i| WorkflowRepoExistCheck {
                workflow_file: format!("call-{i}.yml"),
                installed_repos: vec![],
                missing_repos: vec![],
            })
            .collect(),
    );

    app.workflow_repo_exist_move_down(3);
    app.adjust_workflow_repo_exist_scroll(2);

    assert_eq!(app.workflow_repo_exist_scroll, 2);
}


#[test]
fn apply_filter_empty_query_shows_all() {
    let mut app = App::new(make_config());
    app.repos = vec![make_repo("alpha"), make_repo("beta")];
    app.rebuild_rows();
    assert_eq!(repo_count(&app), 2);
}

#[test]
fn apply_filter_with_query_filters_by_name() {
    let mut app = App::new(make_config());
    app.repos = vec![make_repo("alpha"), make_repo("beta"), make_repo("alphabet")];
    app.rebuild_rows();
    app.search_query = String::from("alpha");
    app.apply_filter();
    let names: Vec<&str> = app
        .filtered_rows
        .iter()
        .filter_map(|r| {
            if let RepoRow::Repo(i) = r {
                Some(app.repos[*i].name.as_str())
            } else {
                None
            }
        })
        .collect();
    assert!(names.contains(&"alpha"), "alpha expected");
    assert!(names.contains(&"alphabet"), "alphabet expected");
    assert!(!names.contains(&"beta"), "beta should be filtered out");
}

#[test]
fn apply_filter_multi_term_and_logic() {
    let mut app = App::new(make_config());
    app.repos = vec![make_repo("foo-bar"), make_repo("foo-baz"), make_repo("qux")];
    app.rebuild_rows();
    app.search_query = String::from("foo bar");
    app.apply_filter();
    let names: Vec<&str> = app
        .filtered_rows
        .iter()
        .filter_map(|r| {
            if let RepoRow::Repo(i) = r {
                Some(app.repos[*i].name.as_str())
            } else {
                None
            }
        })
        .collect();
    assert!(names.contains(&"foo-bar"), "foo-bar expected");
    assert!(
        !names.contains(&"foo-baz"),
        "foo-baz should not match 'bar'"
    );
    assert!(!names.contains(&"qux"), "qux should not match");
}

#[test]
fn search_push_filters_and_jumps_to_first_match() {
    let mut app = App::new(make_config());
    app.repos = vec![make_repo("alpha"), make_repo("beta")];
    app.rebuild_rows();
    app.search_enter();
    app.search_push('b');
    assert_eq!(repo_count(&app), 1);
    assert_eq!(app.selected_repo_idx(), Some(1));
}

#[test]
fn search_enter_resets_query_and_match_index() {
    let mut app = App::new(make_config());
    app.repos = vec![make_active_repo("alpha"), make_active_repo("beta")];
    app.rebuild_rows();
    app.search_query = String::from("stale");
    app.search_match_idx = 3;
    app.repo_move_down(1);
    let saved_cursor = app.row_cursor;

    app.search_enter();

    assert_eq!(app.search_state, SearchState::Active);
    assert!(app.search_query.is_empty());
    assert_eq!(app.search_match_idx, 0);
    assert_eq!(app.search_saved_cursor, saved_cursor);
}

#[test]
fn search_pop_expands_filter() {
    let mut app = App::new(make_config());
    app.repos = vec![make_repo("beta"), make_repo("beta2")];
    app.rebuild_rows();
    app.search_enter();
    for c in "beta2".chars() {
        app.search_push(c);
    }
    assert_eq!(repo_count(&app), 1);
    app.search_pop();
    assert_eq!(repo_count(&app), 2);
}

#[test]
fn search_pop_keeps_ascii_matches_but_not_a_final_sigma_match() {
    let mut app = App::new(make_config());
    app.repos = vec![make_repo("ασα"), make_repo("tool")];
    app.rebuild_rows();
    app.search_enter();
    for c in "ΑΣΑ".chars() {
        app.search_push(c);
    }
    assert_eq!(repo_count(&app), 1);
    // "ΑΣ" lower-cases to "ας" (final sigma), which "ασα" does not contain.
    app.search_pop();
    assert_eq!(repo_count(&app), 0);
    app.search_cancel();
    app.search_enter();
    for c in "TOO".chars() {
        app.search_push(c);
    }
    assert_eq!(repo_count(&app), 1);
    app.search_pop();
    assert_eq!(repo_count(&app), 1);
}

#[test]
fn search_confirm_clears_filter_and_preserves_selection() {
    let mut app = App::new(make_config());
    app.repos = vec![make_repo("alpha"), make_repo("beta"), make_repo("gamma")];
    app.rebuild_rows();
    app.search_query = String::from("beta");
    app.apply_filter();
    assert_eq!(app.selected_repo_idx(), Some(1));
    app.search_confirm();
    assert!(app.search_query.is_empty(), "query should be cleared");
    assert_eq!(app.search_state, SearchState::Off);
    assert_eq!(
        app.selected_repo_idx(),
        Some(1),
        "selection should remain on beta"
    );
}

#[test]
fn search_cancel_restores_cursor_position() {
    let mut app = App::new(make_config());
    app.repos = vec![make_repo("alpha"), make_repo("beta"), make_repo("gamma")];
    app.rebuild_rows();
    app.repo_move_down(2);
    assert_eq!(app.selected_repo_idx(), Some(2));
    app.search_enter();
    app.search_push('b');
    assert_eq!(app.selected_repo_idx(), Some(1));
    app.search_cancel();
    assert_eq!(app.search_state, SearchState::Off);
    assert_eq!(
        app.selected_repo_idx(),
        Some(2),
        "cursor should be restored to gamma"
    );
}

#[test]
fn search_next_match_cycles_forward() {
    let mut app = App::new(make_config());
    app.repos = vec![
        make_active_repo("foo1"),
        make_active_repo("bar"),
        make_active_repo("foo2"),
    ];
    app.rebuild_rows();
    app.search_enter();
    for c in "foo".chars() {
        app.search_push(c);
    }
    let first = app.selected_repo_idx();
    app.search_next_match();
    let second = app.selected_repo_idx();
    assert_ne!(first, second, "next match should move cursor");
    app.search_next_match();
    assert_eq!(
        app.selected_repo_idx(),
        first,
        "should wrap around to first match"
    );
}

#[test]
fn search_prev_match_cycles_backward() {
    let mut app = App::new(make_config());
    app.repos = vec![
        make_active_repo("foo1"),
        make_active_repo("bar"),
        make_active_repo("foo2"),
    ];
    app.rebuild_rows();
    app.search_enter();
    for c in "foo".chars() {
        app.search_push(c);
    }
    let first = app.selected_repo_idx();
    app.search_prev_match();
    let last = app.selected_repo_idx();
    assert_ne!(first, last, "prev match should move cursor");
}





#[test]
fn collect_cargo_ng_items_picks_only_binary_reported_stale_repos() {
    let repos = vec![ok_repo("ok-repo"), ng_repo("ng-repo"), make_repo("plain")];
    let items = collect_cargo_ng_items(&repos);
    assert_eq!(items.len(), 1);
    assert_eq!(items[0].name, "ng-repo");
    assert_eq!(
        items[0].installed_hash,
        "4ecf42e931e9dc3af0dd89bd53351676a2899a23"
    );
    assert_eq!(
        items[0].remote_hash,
        "47049c0fe70d57e233d8943a4abab5bf780621bc"
    );
}

#[test]
fn auto_open_cargo_ng_once_opens_only_the_first_time() {
    let mut app = app_with(vec![ng_repo("ng-repo")]);
    assert!(app.auto_open_cargo_ng_once());
    assert!(app.show_cargo_ng);

    app.close_cargo_ng();
    assert!(!app.auto_open_cargo_ng_once());
    assert!(!app.show_cargo_ng);
}

#[test]
fn auto_open_cargo_ng_once_opens_again_after_reset() {
    let mut app = app_with(vec![ng_repo("ng-repo")]);
    assert!(app.auto_open_cargo_ng_once());
    app.close_cargo_ng();
    app.reset_cargo_ng_auto_shown();
    assert!(app.auto_open_cargo_ng_once());
}

#[test]
fn auto_open_cargo_ng_once_does_nothing_without_ng_repos() {
    let mut app = app_with(vec![ok_repo("ok-repo")]);
    assert!(!app.auto_open_cargo_ng_once());
    assert!(!app.show_cargo_ng);
    // NG が無いうちは「表示済み」にしない。あとで NG が出たら開けるようにするため。
    assert!(!app.cargo_ng_auto_shown);
}

#[test]
fn auto_open_cargo_ng_once_yields_to_an_open_overlay() {
    let mut app = app_with(vec![ng_repo("ng-repo")]);
    app.show_help = true;
    assert!(!app.auto_open_cargo_ng_once());
    assert!(!app.show_cargo_ng);
}

#[test]
fn jump_to_selected_cargo_ng_moves_the_cursor_and_closes() {
    let mut app = app_with(vec![ok_repo("ok-repo"), ng_repo("ng-repo")]);
    app.open_cargo_ng_from_repos();
    assert_eq!(app.cargo_ng_items.len(), 1);

    app.jump_to_selected_cargo_ng();
    assert!(!app.show_cargo_ng);
    assert_eq!(
        app.selected_repo().map(|repo| repo.name.as_str()),
        Some("ng-repo")
    );
}

#[test]
fn cargo_ng_move_stays_in_range() {
    let mut app = app_with(vec![ng_repo("a"), ng_repo("b")]);
    app.open_cargo_ng_from_repos();
    app.cargo_ng_move_down(10);
    assert_eq!(app.cargo_ng_selected, 1);
    app.cargo_ng_move_up(10);
    assert_eq!(app.cargo_ng_selected, 0);
}

#[test]
fn start_cargo_hash_polling_schedules_first_check_after_one_minute() {
    let mut app = App::new(make_config());
    let now: i128 = secs(123);

    app.start_cargo_hash_polling_at("repo", now);

    assert_eq!(app.active_cargo_hash_poll_count(), 1);
    assert!(app.due_cargo_hash_polls_at(now).is_empty());
    assert!(app.due_cargo_hash_polls_at(now + CARGO_HASH_POLL_INTERVAL - 1).is_empty());
    assert_eq!(
        app.due_cargo_hash_polls_at(now + CARGO_HASH_POLL_INTERVAL),
        vec![String::from("repo")]
    );
}

#[test]
fn finish_cargo_hash_poll_attempt_reschedules_until_timeout() {
    let mut app = App::new(make_config());
    let now: i128 = secs(500);

    app.start_cargo_hash_polling_at("repo", now);
    app.mark_cargo_hash_poll_in_flight("repo");

    assert!(!app.finish_cargo_hash_poll_attempt_at("repo", now + secs(90)));
    assert!(app.due_cargo_hash_polls_at(now + secs(149)).is_empty());
    assert_eq!(
        app.due_cargo_hash_polls_at(now + secs(150)),
        vec![String::from("repo")]
    );
}

#[test]
fn expire_cargo_hash_polls_removes_timed_out_repo() {
    let mut app = App::new(make_config());
    let now: i128 = secs(1_000);

    app.start_cargo_hash_polling_at("repo", now);

    let expired = app.expire_cargo_hash_polls_at(now + CARGO_HASH_POLL_TIMEOUT);

    assert_eq!(expired, vec![String::from("repo")]);
    assert_eq!(app.active_cargo_hash_poll_count(), 0);
}

#[test]
fn stop_cargo_hash_polling_removes_existing_entry() {
    let mut app = App::new(make_config());
    app.repos = vec![make_repo("repo")];

    app.start_cargo_hash_polling_at("repo", 0);
    app.stop_cargo_hash_polling("repo");

    assert_eq!(app.active_cargo_hash_poll_count(), 0);
}

#[test]
fn finish_cargo_hash_poll_attempt_ends_polling_after_timeout() {
    let mut app = App::new(make_config());
    app.start_cargo_hash_polling_at("repo", secs(10));
    app.mark_cargo_hash_poll_in_flight("repo");
    assert!(app.finish_cargo_hash_poll_attempt_at("repo", secs(10) + CARGO_HASH_POLL_TIMEOUT));
    assert_eq!(app.active_cargo_hash_poll_count(), 0);
}

#[test]
fn marked_poll_is_not_due_while_in_flight() {
    let mut app = App::new(make_config());
    app.start_cargo_hash_polling_at("repo", 0);
    app.mark_cargo_hash_poll_in_flight("repo");
    assert!(app.due_cargo_hash_polls_at(secs(10_000)).is_empty());
}

#[test]
fn auto_update_poll_is_remembered() {
    let mut app = App::new(make_config());
    app.start_auto_update_cargo_hash_polling_at("a", 0);
    app.start_cargo_hash_polling_at("b", 0);
    assert!(app.cargo_hash_poll_after_auto_update("a"));
    assert!(!app.cargo_hash_poll_after_auto_update("b"));
    assert!(!app.cargo_hash_poll_after_auto_update("c"));
}

#[test]
fn handle_poll_result_stops_polling_when_hashes_match() {
    let mut app = App::new(make_config());
    app.repos = vec![make_repo("repo")];
    app.start_auto_update_cargo_hash_polling_at("repo", 0);
    let actions = app.handle_cargo_hash_poll_result_at(
        "repo",
        Some((true, String::from("abc"), String::from("loc"), String::from("abc"))),
        60,
    );
    assert_eq!(app.active_cargo_hash_poll_count(), 0);
    assert_eq!(app.repos[0].cargo_install, Some(true));
    assert_eq!(app.repos[0].cargo_installed_hash, "abc");
    assert_eq!(app.repos[0].cargo_checked_at, "loc");
    assert_eq!(
        app.repos[0].cargo_remote_hash_checked_at,
        "2024-01-01T00:00:00Z"
    );
    assert_eq!(
        actions.log_line.as_deref(),
        Some("cargo hash polling completed: owner/repo installed==remote")
    );
    let (name, lines) = actions.auto_update_log.unwrap();
    assert_eq!(name, "owner/repo");
    assert_eq!(
        lines[0],
        "installed hash 確認結果: installed_hash=abc remote_hash=abc"
    );
    assert!(actions.persist.is_some());
}

#[test]
fn handle_poll_result_reschedules_when_hashes_differ() {
    let mut app = App::new(make_config());
    app.repos = vec![make_repo("repo")];
    app.start_cargo_hash_polling_at("repo", 0);
    app.mark_cargo_hash_poll_in_flight("repo");
    let actions = app.handle_cargo_hash_poll_result_at(
        "repo",
        Some((false, String::from("old"), String::new(), String::from("new"))),
        secs(60),
    );
    assert_eq!(app.active_cargo_hash_poll_count(), 1);
    assert!(actions.log_line.is_none());
    assert!(actions.auto_update_log.is_none());
    assert!(app.due_cargo_hash_polls_at(secs(119)).is_empty());
    assert_eq!(app.due_cargo_hash_polls_at(secs(120)), vec![String::from("repo")]);
}

#[test]
fn handle_poll_result_without_result_reports_retry_after_update() {
    let mut app = App::new(make_config());
    app.repos = vec![make_repo("repo")];
    app.start_auto_update_cargo_hash_polling_at("repo", 0);
    let actions = app.handle_cargo_hash_poll_result_at("repo", None, secs(60));
    let (_, lines) = actions.auto_update_log.unwrap();
    assert_eq!(lines.len(), 1);
    assert!(lines[0].contains("結果を取得できませんでした"));
    assert_eq!(app.repos[0].cargo_install, None);
}

#[test]
fn start_due_polls_logs_timeouts_and_lists_due_repos() {
    let mut app = App::new(make_config());
    let mut repo = make_repo("old");
    repo.cargo_installed_hash = String::from("i1");
    repo.cargo_remote_hash = String::from("r1");
    app.repos = vec![repo, make_repo("fresh")];
    app.start_auto_update_cargo_hash_polling_at("old", 0);
    app.start_cargo_hash_polling_at("fresh", CARGO_HASH_POLL_TIMEOUT);
    let actions = app.start_due_cargo_hash_polls_at(CARGO_HASH_POLL_TIMEOUT + CARGO_HASH_POLL_INTERVAL);
    assert_eq!(
        actions.log_lines,
        vec![String::from("cargo hash polling timed out after 30m: owner/old")]
    );
    assert_eq!(actions.auto_update_logs.len(), 1);
    assert_eq!(
        actions.auto_update_logs[0].1[0],
        "installed hash 確認結果: installed_hash=i1 remote_hash=r1"
    );
    assert_eq!(actions.to_check, vec![String::from("fresh")]);
    assert!(app.due_cargo_hash_polls_at(i128::MAX / 2).is_empty());
}

#[test]
fn consume_prefix_resets_after_large_value() {
    let mut app = App::new(make_config());
    app.push_digit(4);
    app.push_digit(2);
    assert_eq!(app.consume_prefix(), 42);
    assert_eq!(app.consume_prefix(), 1);
}

#[test]
fn navigation_skips_separators_between_groups() {
    let mut app = App::new(make_config());
    app.repos = vec![make_active_repo("a"), make_repo("b")];
    app.rebuild_rows();
    app.repo_move_down(1);
    assert_eq!(app.selected_repo().unwrap().name, "b");
    app.repo_move_up(1);
    assert_eq!(app.selected_repo().unwrap().name, "a");
}

#[test]
fn search_cancel_without_matches_restores_everything() {
    let mut app = App::new(make_config());
    app.repos = vec![make_repo("alpha"), make_repo("beta")];
    app.rebuild_rows();
    app.search_enter();
    app.search_push('z');
    assert_eq!(repo_count(&app), 0);
    app.search_cancel();
    assert_eq!(repo_count(&app), 2);
    assert_eq!(app.selected_repo_idx(), Some(0));
}

#[test]
fn focus_detail_falls_back_to_first_issue() {
    let mut app = App::new(make_config());
    let mut repo = make_repo("a");
    repo.issues = vec![make_issue(3, "only issue", "owner/a")];
    app.repos = vec![repo];
    app.rebuild_rows();
    app.focus_detail_first_pr_or_issue();
    assert_eq!(app.focus, Focus::Detail);
    assert_eq!(
        app.selected_detail_url().unwrap(),
        "https://github.com/owner/a/issues/3"
    );
}

#[test]
fn workflow_overlay_closes() {
    let mut app = App::new(make_config());
    app.open_workflow_repo_exist(vec![WorkflowRepoExistCheck {
        workflow_file: String::from("call-a.yml"),
        installed_repos: vec![WorkflowRepoExistRepo {
            name: String::from("r"),
            updated_at: String::from("today"),
            updated_at_raw: String::new(),
        }],
        missing_repos: vec![],
    }]);
    assert!(app.show_workflow_repo_exist);
    app.close_workflow_repo_exist();
    assert!(!app.show_workflow_repo_exist);
}

#[test]
fn search_state_starts_off() {
    let app = App::new(make_config());
    assert_eq!(app.search_state, SearchState::Off);
}

#[test]
fn apply_filter_ignores_letter_case() {
    let mut app = App::new(make_config());
    app.repos = vec![make_repo("Alpha-Tool"), make_repo("beta")];
    app.rebuild_rows();
    app.search_query = String::from("aLPHA tool");
    app.apply_filter();
    let names: Vec<&str> = app
        .filtered_rows
        .iter()
        .filter_map(|r| {
            if let RepoRow::Repo(i) = r {
                Some(app.repos[*i].name.as_str())
            } else {
                None
            }
        })
        .collect();
    assert_eq!(names, vec!["Alpha-Tool"]);
}

#[test]
fn record_auto_update_launch_starts_polling_only_when_launched() {
    let request = AutoUpdateLaunchRequest {
        name: String::from("tool"),
        full_name: String::from("owner/tool"),
        cargo_install: Some(false),
        installed_hash: String::from("aaa"),
        remote_hash: String::from("bbb"),
    };
    let mut app = App::new(make_config());
    let lines = app.record_auto_update_launch_at(&request, true, "launched tool update", secs(1000));
    assert_eq!(
        lines,
        vec![
            String::from("この repo は cargo check で old でしたので、recheck でも old のままか確認しました。"),
            String::from("installed hash 確認結果: installed_hash=aaa remote_hash=bbb"),
            String::from("update 実行: launched tool update"),
            String::from("1分後から、1分間隔で installed hash を確認し、remote hash と一致したかをこのログに追記します。"),
        ]
    );
    assert!(app.cargo_hash_poll_after_auto_update("tool"));
    assert!(app.due_cargo_hash_polls_at(secs(1059)).is_empty());
    assert_eq!(app.due_cargo_hash_polls_at(secs(1060)), vec![String::from("tool")]);
    let mut other = App::new(make_config());
    let lines = other.record_auto_update_launch_at(&request, false, "failed", secs(1000));
    assert_eq!(
        lines[3],
        "update の起動に失敗したため、1分後の installed hash 確認は開始しません。"
    );
    assert_eq!(other.active_cargo_hash_poll_count(), 0);
}
