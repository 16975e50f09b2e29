//! State of the interactive repository list and its navigation.
use vstd::prelude::*;

use std::collections::{HashSet, VecDeque};

use crate::app_cargo_ng::CargoNgItem;
use crate::app_polls::CargoHashPoll;
use crate::config::Config;
use crate::rows::{
    build_detail_items, build_rows, detail_count, detail_entry, detail_url, is_repo_row,
    rows_for, rows_valid, Focus, RepoRow, SearchState,
};
use crate::text::push_str;
use crate::types::{AutoUpdateLaunchRequest, RateLimit, RepoInfo};
use crate::workflows::WorkflowRepoExistCheck;

verus! {

/// Most log lines kept in memory.
pub const MAX_LOG_LINES: usize = 2000;

/// The status line shown while idle.
pub open spec fn ready_msg_text() -> Seq<char> {
    "q:quit  ?:help  F5:refresh  Nj/Nk:move  h/l:pane  Enter:README  i:pages  w:wiki  Shift+W:workflow  g:lazygit  Shift+L:log  /:search"@
}

/// The status line shown while idle.
pub fn ready_msg() -> (s: String)
    ensures
        s@ == ready_msg_text(),
{
    let mut s = String::new();
    push_str(
        &mut s,
        "q:quit  ?:help  F5:refresh  Nj/Nk:move  h/l:pane  Enter:README  i:pages  w:wiki  Shift+W:workflow  g:lazygit  Shift+L:log  /:search",
    );
    assert(s@ =~= ready_msg_text());
    s
}

/// A background task shown in the status bar: tag, progress, total.
pub struct BgTask {
    pub tag: String,
    pub cur: usize,
    pub total: usize,
}

/// The whole interactive state.
pub struct App {
    pub repos: Vec<RepoInfo>,
    /// All rows, unfiltered.
    pub rows: Vec<RepoRow>,
    /// The rows shown; equal to `rows` when no filter is active.
    pub filtered_rows: Vec<RepoRow>,
    /// Index into `filtered_rows`.
    pub row_cursor: usize,
    pub row_scroll: usize,
    pub focus: Focus,
    pub detail_selected: usize,
    pub detail_scroll: usize,
    pub rate_limit: Option<RateLimit>,
    pub status_msg: String,
    /// One-shot message shown until the next key press.
    pub transient_msg: Option<String>,
    pub loading: bool,
    pub window_focused: bool,
    pub config: Config,
    pub num_prefix: u32,
    /// Repositories being checked right now.
    pub checking_repos: HashSet<String>,
    pub bg_tasks: Vec<BgTask>,
    pub pending_auto_update_launches: VecDeque<AutoUpdateLaunchRequest>,
    pub cargo_hash_polls: Vec<CargoHashPoll>,
    pub show_help: bool,
    pub show_workflow_repo_exist: bool,
    pub workflow_repo_exist_items: Vec<WorkflowRepoExistCheck>,
    pub workflow_repo_exist_selected: usize,
    pub workflow_repo_exist_scroll: usize,
    pub show_cargo_ng: bool,
    pub cargo_ng_items: Vec<CargoNgItem>,
    pub cargo_ng_selected: usize,
    pub cargo_ng_scroll: usize,
    /// The stale-install overlay was opened automatically since the last fetch.
    pub cargo_ng_auto_shown: bool,
    pub show_columns: bool,
    pub show_log: bool,
    pub log_lines: Vec<String>,
    /// Modification time of the log file, nanoseconds since the epoch.
    pub log_last_modified: Option<i128>,
    pub term_height: usize,
    pub left_visible: usize,
    pub right_visible: usize,
    pub search_state: SearchState,
    pub search_query: String,
    /// Cursor saved when the search opened, restored on cancel.
    pub search_saved_cursor: usize,
    /// Position within the current match list when cycling.
    pub search_match_idx: usize,
}

// ── row navigation model ─────────────────────────────────────────────────

/// The first repository row at index `i` or later, or `rows.len()`.
pub open spec fn first_repo_from(rows: Seq<RepoRow>, i: int) -> int
    decreases rows.len() - i,
{
    if i < 0 || i >= rows.len() {
        rows.len() as int
    } else if is_repo_row(rows[i]) {
        i
    } else {
        first_repo_from(rows, i + 1)
    }
}

/// The last repository row before index `i`, or -1.
pub open spec fn last_repo_before(rows: Seq<RepoRow>, i: int) -> int
    decreases i,
{
    if i <= 0 {
        -1
    } else if i - 1 < rows.len() && is_repo_row(rows[i - 1]) {
        i - 1
    } else {
        last_repo_before(rows, i - 1)
    }
}

/// Cursor after moving down over `n` repository rows, stopping at the last one.
pub open spec fn move_down(rows: Seq<RepoRow>, c: int, n: nat) -> int
    decreases n,
{
    if n == 0 {
        c
    } else {
        let j = first_repo_from(rows, c + 1);
        if j < rows.len() {
            move_down(rows, j, (n - 1) as nat)
        } else {
            c
        }
    }
}

/// Cursor after moving up over `n` repository rows, stopping at the first one.
pub open spec fn move_up(rows: Seq<RepoRow>, c: int, n: nat) -> int
    decreases n,
{
    if n == 0 {
        c
    } else {
        let j = last_repo_before(rows, c);
        if j >= 0 {
            move_up(rows, j, (n - 1) as nat)
        } else {
            c
        }
    }
}

/// The repository row the cursor lands on when it snaps forward from `c`,
/// wrapping around once; `c` itself when there is no repository row.
pub open spec fn snap_forward(rows: Seq<RepoRow>, c: int) -> int {
    if first_repo_from(rows, c) < rows.len() {
        first_repo_from(rows, c)
    } else if first_repo_from(rows, 0) < rows.len() {
        first_repo_from(rows, 0)
    } else {
        c
    }
}

/// The repository row the cursor lands on when it snaps backward from `c`.
pub open spec fn snap_backward(rows: Seq<RepoRow>, c: int) -> int {
    if last_repo_before(rows, c + 1) >= 0 {
        last_repo_before(rows, c + 1)
    } else {
        snap_forward(rows, c)
    }
}

/// The scroll offset that keeps `sel` visible in a window of `visible` lines.
pub open spec fn scroll_for(sel: int, scroll: int, visible: int) -> int {
    if visible == 0 {
        scroll
    } else if sel < scroll {
        sel
    } else if sel >= scroll + visible {
        sel - visible + 1
    } else {
        scroll
    }
}

pub proof fn lemma_first_repo_from_bounds(rows: Seq<RepoRow>, i: int)
    requires
        0 <= i,
    ensures
        first_repo_from(rows, i) == rows.len() || (i <= first_repo_from(rows, i) < rows.len()
            && is_repo_row(rows[first_repo_from(rows, i)])),
        forall|k: int| i <= k < first_repo_from(rows, i) ==> !is_repo_row(#[trigger] rows[k]),
    decreases rows.len() - i,
{
    if i < rows.len() && !is_repo_row(rows[i]) {
        lemma_first_repo_from_bounds(rows, i + 1);
    }
}

pub proof fn lemma_last_repo_before_bounds(rows: Seq<RepoRow>, i: int)
    requires
        i <= rows.len(),
    ensures
        last_repo_before(rows, i) == -1 || (0 <= last_repo_before(rows, i) < i && is_repo_row(
            rows[last_repo_before(rows, i)],
        )),
    decreases i,
{
    if i > 0 && !is_repo_row(rows[i - 1]) {
        lemma_last_repo_before_bounds(rows, i - 1);
    }
}

/// Moving never leaves the rows and always lands on a repository row.
pub proof fn lemma_move_down_lands_on_repo(rows: Seq<RepoRow>, c: int, n: nat)
    requires
        0 <= c < rows.len(),
        is_repo_row(rows[c]),
    ensures
        0 <= move_down(rows, c, n) < rows.len(),
        is_repo_row(rows[move_down(rows, c, n)]),
        c <= move_down(rows, c, n),
    decreases n,
{
    if n > 0 {
        lemma_first_repo_from_bounds(rows, c + 1);
        let j = first_repo_from(rows, c + 1);
        if j < rows.len() {
            lemma_move_down_lands_on_repo(rows, j, (n - 1) as nat);
        }
    }
}

/// Moving up never leaves the rows and always lands on a repository row.
pub proof fn lemma_move_up_lands_on_repo(rows: Seq<RepoRow>, c: int, n: nat)
    requires
        0 <= c < rows.len(),
        is_repo_row(rows[c]),
    ensures
        0 <= move_up(rows, c, n) < rows.len(),
        is_repo_row(rows[move_up(rows, c, n)]),
        move_up(rows, c, n) <= c,
    decreases n,
{
    if n > 0 {
        lemma_last_repo_before_bounds(rows, c);
        let j = last_repo_before(rows, c);
        if j >= 0 {
            lemma_move_up_lands_on_repo(rows, j, (n - 1) as nat);
        }
    }
}

/// The first repository row at `from` or later, or `rows.len()`.
pub fn next_repo_row(rows: &[RepoRow], from: usize) -> (r: usize)
    ensures
        r as int == first_repo_from(rows@, from as int),
{
    let mut i: usize = from;
    while i < rows.len()
        invariant
            from <= i,
            first_repo_from(rows@, from as int) == first_repo_from(rows@, i as int),
        decreases rows.len() - i,
    {
        match rows[i] {
            RepoRow::Repo(_) => {
                return i;
            },
            RepoRow::Separator(_) => {},
        }
        i += 1;
    }
    rows.len()
}

/// The last repository row before `before`, if any.
pub fn prev_repo_row(rows: &[RepoRow], before: usize) -> (r: Option<usize>)
    requires
        before <= rows.len(),
    ensures
        match r {
            Some(j) => j as int == last_repo_before(rows@, before as int),
            None => last_repo_before(rows@, before as int) == -1,
        },
{
    let mut i: usize = before;
    while i > 0
        invariant
            i <= before <= rows.len(),
            last_repo_before(rows@, before as int) == last_repo_before(rows@, i as int),
        decreases i,
    {
        match rows[i - 1] {
            RepoRow::Repo(_) => {
                return Some(i - 1);
            },
            RepoRow::Separator(_) => {},
        }
        i -= 1;
    }
    None
}

/// Cursor after moving down `n` repository rows.
pub fn move_down_exec(rows: &[RepoRow], c: usize, n: usize) -> (r: usize)
    ensures
        r as int == move_down(rows@, c as int, n as nat),
{
    let mut cur: usize = c;
    let mut remaining: usize = n;
    while remaining > 0
        invariant
            move_down(rows@, c as int, n as nat) == move_down(rows@, cur as int, remaining as nat),
        decreases remaining,
    {
        if cur >= rows.len() {
            proof {
                lemma_first_repo_from_bounds(rows@, cur + 1);
            }
            return cur;
        }
        let j = next_repo_row(rows, cur + 1);
        if j >= rows.len() {
            return cur;
        }
        cur = j;
        remaining -= 1;
    }
    cur
}

/// Cursor after moving up `n` repository rows.
pub fn move_up_exec(rows: &[RepoRow], c: usize, n: usize) -> (r: usize)
    requires
        n == 0 || c <= rows.len(),
    ensures
        r as int == move_up(rows@, c as int, n as nat),
{
    let mut cur: usize = c;
    let mut remaining: usize = n;
    while remaining > 0
        invariant
            remaining == 0 || cur <= rows.len(),
            move_up(rows@, c as int, n as nat) == move_up(rows@, cur as int, remaining as nat),
        decreases remaining,
    {
        match prev_repo_row(rows, cur) {
            Some(j) => {
                proof {
                    lemma_last_repo_before_bounds(rows@, cur as int);
                }
                cur = j;
                remaining -= 1;
            },
            None => {
                return cur;
            },
        }
    }
    cur
}

/// Snaps the cursor forward (wrapping) onto a repository row.
pub fn snap_forward_exec(rows: &[RepoRow], c: usize) -> (r: usize)
    ensures
        r as int == snap_forward(rows@, c as int),
{
    let j = next_repo_row(rows, c);
    if j < rows.len() {
        return j;
    }
    let k = next_repo_row(rows, 0);
    if k < rows.len() {
        return k;
    }
    c
}

/// The scroll offset that keeps `sel` visible in a window of `visible` lines.
pub fn adjusted_scroll(sel: usize, scroll: usize, visible: usize) -> (r: usize)
    requires
        visible == 0 || sel < scroll || scroll + visible <= usize::MAX,
    ensures
        r as int == scroll_for(sel as int, scroll as int, visible as int),
{
    if visible == 0 {
        return scroll;
    }
    if sel < scroll {
        sel
    } else if sel >= scroll + visible {
        sel - visible + 1
    } else {
        scroll
    }
}

/// The repository selected by `cursor` in `rows`.
pub open spec fn selected_idx(rows: Seq<RepoRow>, cursor: int) -> Option<usize> {
    if 0 <= cursor < rows.len() {
        match rows[cursor] {
            RepoRow::Repo(idx) => Some(idx),
            RepoRow::Separator(_) => None,
        }
    } else {
        None
    }
}

/// The selected repository, when the selected index is in range.
pub open spec fn selected_repo_of(app: App) -> Option<RepoInfo> {
    match selected_idx(app.filtered_rows@, app.row_cursor as int) {
        Some(i) => if i < app.repos@.len() {
            Some(app.repos@[i as int])
        } else {
            None
        },
        None => None,
    }
}

/// Number of detail items of the selected repository.
pub open spec fn detail_len_of(app: App) -> nat {
    match selected_repo_of(app) {
        Some(r) => detail_count(r),
        None => 0,
    }
}

/// Saturating step of a page: one less than the visible height, at least one.
pub open spec fn page_step(visible: usize) -> usize {
    if visible <= 1 {
        1
    } else {
        (visible - 1) as usize
    }
}

fn page_step_exec(visible: usize) -> (r: usize)
    ensures
        r == page_step(visible),
{
    let s = visible.saturating_sub(1);
    if s < 1 {
        1
    } else {
        s
    }
}

/// `min(a, b)` for `usize`.
pub open spec fn min_usize(a: int, b: int) -> int {
    if a <= b {
        a
    } else {
        b
    }
}

/// The number prefix after typing digit `d`: `prefix * 10 + d`, saturating.
pub open spec fn prefix_after_digit(prefix: u32, d: u32) -> u32 {
    let m: int = if prefix * 10 > u32::MAX {
        u32::MAX as int
    } else {
        prefix * 10
    };
    if m + d > u32::MAX {
        u32::MAX
    } else {
        (m + d) as u32
    }
}

/// The log after keeping only the newest `MAX_LOG_LINES` lines.
pub open spec fn capped_log(lines: Seq<String>) -> Seq<String> {
    if lines.len() > MAX_LOG_LINES {
        lines.skip(lines.len() - MAX_LOG_LINES)
    } else {
        lines
    }
}

impl App {
    /// A fresh state for `config`: empty lists, loading, repository pane focused.
    pub fn new(config: Config) -> (app: Self)
        ensures
            app.repos@.len() == 0,
            app.rows@.len() == 0,
            app.filtered_rows@.len() == 0,
            app.row_cursor == 0,
            app.row_scroll == 0,
            app.focus == Focus::Repos,
            app.detail_selected == 0,
            app.detail_scroll == 0,
            app.rate_limit is None,
            app.status_msg@ == ready_msg_text(),
            app.transient_msg is None,
            app.loading,
            app.window_focused,
            app.config == config,
            app.num_prefix == 0,
            app.checking_repos@.len() == 0,
            app.bg_tasks@.len() == 0,
            app.pending_auto_update_launches@.len() == 0,
            app.cargo_hash_polls@.len() == 0,
            !app.show_help,
            !app.show_workflow_repo_exist,
            app.workflow_repo_exist_items@.len() == 0,
            app.workflow_repo_exist_selected == 0,
            app.workflow_repo_exist_scroll == 0,
            !app.show_cargo_ng,
            app.cargo_ng_items@.len() == 0,
            app.cargo_ng_selected == 0,
            app.cargo_ng_scroll == 0,
            !app.cargo_ng_auto_shown,
            app.show_columns,
            !app.show_log,
            app.log_lines@.len() == 0,
            app.log_last_modified is None,
            app.term_height == 40,
            app.left_visible == 30,
            app.right_visible == 30,
            app.search_state == SearchState::Off,
            app.search_query@.len() == 0,
            app.search_saved_cursor == 0,
            app.search_match_idx == 0,
    {
        App {
            repos: Vec::new(),
            rows: Vec::new(),
            filtered_rows: Vec::new(),
            row_cursor: 0,
            row_scroll: 0,
            focus: Focus::Repos,
            detail_selected: 0,
            detail_scroll: 0,
            rate_limit: None,
            status_msg: ready_msg(),
            transient_msg: None,
            loading: true,
            window_focused: true,
            config,
            num_prefix: 0,
            checking_repos: HashSet::new(),
            bg_tasks: Vec::new(),
            pending_auto_update_launches: VecDeque::new(),
            cargo_hash_polls: Vec::new(),
            show_help: false,
            show_workflow_repo_exist: false,
            workflow_repo_exist_items: Vec::new(),
            workflow_repo_exist_selected: 0,
            workflow_repo_exist_scroll: 0,
            show_cargo_ng: false,
            cargo_ng_items: Vec::new(),
            cargo_ng_selected: 0,
            cargo_ng_scroll: 0,
            cargo_ng_auto_shown: false,
            show_columns: true,
            show_log: false,
            log_lines: Vec::new(),
            log_last_modified: None,
            term_height: 40,
            left_visible: 30,
            right_visible: 30,
            search_state: SearchState::Off,
            search_query: String::new(),
            search_saved_cursor: 0,
            search_match_idx: 0,
        }
    }

    /// The repository under the cursor, as an index into `repos`.
    pub fn selected_repo_idx(&self) -> (r: Option<usize>)
        ensures
            r == selected_idx(self.filtered_rows@, self.row_cursor as int),
    {
        if self.row_cursor < self.filtered_rows.len() {
            match self.filtered_rows[self.row_cursor] {
                RepoRow::Repo(idx) => Some(idx),
                RepoRow::Separator(_) => None,
            }
        } else {
            None
        }
    }

    /// The repository under the cursor.
    pub fn selected_repo(&self) -> (r: Option<&RepoInfo>)
        ensures
            match selected_repo_of(*self) {
                Some(x) => r matches Some(y) && *y == x,
                None => r is None,
            },
    {
        match self.selected_repo_idx() {
            Some(i) => if i < self.repos.len() {
                Some(&self.repos[i])
            } else {
                None
            },
            None => None,
        }
    }

    fn reset_detail(&mut self)
        ensures
            *final(self) == (App { detail_selected: 0, detail_scroll: 0, ..*old(self) }),
    {
        self.detail_selected = 0;
        self.detail_scroll = 0;
    }

    /// Moves the cursor down over `n` repository rows, stopping at the last one.
    pub fn repo_move_down(&mut self, n: usize)
        ensures
            *final(self) == (App {
                row_cursor: move_down(old(self).filtered_rows@, old(self).row_cursor as int, n as nat) as usize,
                detail_selected: 0,
                detail_scroll: 0,
                ..*old(self)
            }),
    {
        let c = move_down_exec(self.filtered_rows.as_slice(), self.row_cursor, n);
        self.row_cursor = c;
        self.reset_detail();
    }

    /// Moves the cursor up over `n` repository rows, stopping at the first one.
    pub fn repo_move_up(&mut self, n: usize)
        requires
            n == 0 || old(self).row_cursor <= old(self).filtered_rows@.len(),
        ensures
            *final(self) == (App {
                row_cursor: move_up(old(self).filtered_rows@, old(self).row_cursor as int, n as nat) as usize,
                detail_selected: 0,
                detail_scroll: 0,
                ..*old(self)
            }),
    {
        let c = move_up_exec(self.filtered_rows.as_slice(), self.row_cursor, n);
        self.row_cursor = c;
        self.reset_detail();
    }

    /// Moves down by one page of the repository pane.
    pub fn repo_page_down(&mut self)
        ensures
            *final(self) == (App {
                row_cursor: move_down(
                    old(self).filtered_rows@,
                    old(self).row_cursor as int,
                    page_step(old(self).left_visible) as nat,
                ) as usize,
                detail_selected: 0,
                detail_scroll: 0,
                ..*old(self)
            }),
    {
        let step = page_step_exec(self.left_visible);
        self.repo_move_down(step);
    }

    /// Moves up by one page of the repository pane.
    pub fn repo_page_up(&mut self)
        requires
            old(self).row_cursor <= old(self).filtered_rows@.len(),
        ensures
            *final(self) == (App {
                row_cursor: move_up(
                    old(self).filtered_rows@,
                    old(self).row_cursor as int,
                    page_step(old(self).left_visible) as nat,
                ) as usize,
                detail_selected: 0,
                detail_scroll: 0,
                ..*old(self)
            }),
    {
        let step = page_step_exec(self.left_visible);
        self.repo_move_up(step);
    }

    /// Scrolls the repository pane so that the cursor is visible.
    pub fn adjust_row_scroll(&mut self, visible: usize)
        requires
            visible == 0 || old(self).row_cursor < old(self).row_scroll || old(self).row_scroll
                + visible <= usize::MAX,
        ensures
            *final(self) == (App {
                row_scroll: scroll_for(
                    old(self).row_cursor as int,
                    old(self).row_scroll as int,
                    visible as int,
                ) as usize,
                ..*old(self)
            }),
    {
        self.row_scroll = adjusted_scroll(self.row_cursor, self.row_scroll, visible);
    }

    /// Number of detail items of the selected repository.
    pub fn detail_len(&self) -> (r: usize)
        ensures
            r as nat == detail_len_of(*self),
    {
        match self.selected_repo() {
            Some(r) => build_detail_items(r).len(),
            None => 0,
        }
    }

    /// Moves the detail selection down by `n`, stopping at the last item.
    pub fn detail_move_down(&mut self, n: usize)
        requires
            old(self).detail_selected + n <= usize::MAX,
        ensures
            *final(self) == (App {
                detail_selected: min_usize(
                    old(self).detail_selected + n,
                    if detail_len_of(*old(self)) == 0 {
                        0
                    } else {
                        detail_len_of(*old(self)) - 1
                    },
                ) as usize,
                ..*old(self)
            }),
    {
        let max = self.detail_len().saturating_sub(1);
        let target = self.detail_selected + n;
        self.detail_selected = if target <= max {
            target
        } else {
            max
        };
    }

    /// Moves the detail selection up by `n`, stopping at the first item.
    pub fn detail_move_up(&mut self, n: usize)
        ensures
            *final(self) == (App {
                detail_selected: if old(self).detail_selected >= n {
                    (old(self).detail_selected - n) as usize
                } else {
                    0
                },
                ..*old(self)
            }),
    {
        self.detail_selected = self.detail_selected.saturating_sub(n);
    }

    /// Moves the detail selection down by one page.
    pub fn detail_page_down(&mut self)
        requires
            old(self).detail_selected + page_step(old(self).right_visible) <= usize::MAX,
        ensures
            *final(self) == (App {
                detail_selected: min_usize(
                    old(self).detail_selected + page_step(old(self).right_visible),
                    if detail_len_of(*old(self)) == 0 {
                        0
                    } else {
                        detail_len_of(*old(self)) - 1
                    },
                ) as usize,
                ..*old(self)
            }),
    {
        let step = page_step_exec(self.right_visible);
        self.detail_move_down(step);
    }

    /// Moves the detail selection up by one page.
    pub fn detail_page_up(&mut self)
        ensures
            *final(self) == (App {
                detail_selected: if old(self).detail_selected >= page_step(old(self).right_visible) {
                    (old(self).detail_selected - page_step(old(self).right_visible)) as usize
                } else {
                    0
                },
                ..*old(self)
            }),
    {
        let step = page_step_exec(self.right_visible);
        self.detail_move_up(step);
    }

    /// Scrolls the detail pane so that the selection is visible.
    pub fn adjust_detail_scroll(&mut self, visible: usize)
        requires
            visible == 0 || old(self).detail_selected < old(self).detail_scroll || old(
                self,
            ).detail_scroll + visible <= usize::MAX,
        ensures
            *final(self) == (App {
                detail_scroll: scroll_for(
                    old(self).detail_selected as int,
                    old(self).detail_scroll as int,
                    visible as int,
                ) as usize,
                ..*old(self)
            }),
    {
        self.detail_scroll = adjusted_scroll(self.detail_selected, self.detail_scroll, visible);
    }

    /// Opens the workflow overview with `items`, selecting the first one.
    pub fn open_workflow_repo_exist(&mut self, items: Vec<WorkflowRepoExistCheck>)
        ensures
            *final(self) == (App {
                show_workflow_repo_exist: true,
                workflow_repo_exist_items: items,
                workflow_repo_exist_selected: 0,
                workflow_repo_exist_scroll: 0,
                ..*old(self)
            }),
    {
        self.show_workflow_repo_exist = true;
        self.workflow_repo_exist_items = items;
        self.workflow_repo_exist_selected = 0;
        self.workflow_repo_exist_scroll = 0;
    }

    /// Closes the workflow overview.
    pub fn close_workflow_repo_exist(&mut self)
        ensures
            *final(self) == (App { show_workflow_repo_exist: false, ..*old(self) }),
    {
        self.show_workflow_repo_exist = false;
    }

    /// The selected entry of the workflow overview.
    pub fn selected_workflow_repo_exist(&self) -> (r: Option<&WorkflowRepoExistCheck>)
        ensures
            self.workflow_repo_exist_selected < self.workflow_repo_exist_items@.len() ==> r
                == Some(&self.workflow_repo_exist_items@[self.workflow_repo_exist_selected as int]),
            self.workflow_repo_exist_selected >= self.workflow_repo_exist_items@.len() ==> r is None,
    {
        if self.workflow_repo_exist_selected < self.workflow_repo_exist_items.len() {
            Some(&self.workflow_repo_exist_items[self.workflow_repo_exist_selected])
        } else {
            None
        }
    }

    /// Moves the workflow overview selection down by `n`, stopping at the last entry.
    pub fn workflow_repo_exist_move_down(&mut self, n: usize)
        requires
            old(self).workflow_repo_exist_selected + n <= usize::MAX,
        ensures
            *final(self) == (App {
                workflow_repo_exist_selected: min_usize(
                    old(self).workflow_repo_exist_selected + n,
                    if old(self).workflow_repo_exist_items@.len() == 0 {
                        0
                    } else {
                        old(self).workflow_repo_exist_items@.len() - 1
                    },
                ) as usize,
                ..*old(self)
            }),
    {
        let max = self.workflow_repo_exist_items.len().saturating_sub(1);
        let target = self.workflow_repo_exist_selected + n;
        self.workflow_repo_exist_selected = if target <= max {
            target
        } else {
            max
        };
    }

    /// Moves the workflow overview selection up by `n`, stopping at the first entry.
    pub fn workflow_repo_exist_move_up(&mut self, n: usize)
        ensures
            *final(self) == (App {
                workflow_repo_exist_selected: if old(self).workflow_repo_exist_selected >= n {
                    (old(self).workflow_repo_exist_selected - n) as usize
                } else {
                    0
                },
                ..*old(self)
            }),
    {
        self.workflow_repo_exist_selected = self.workflow_repo_exist_selected.saturating_sub(n);
    }

    /// Scrolls the workflow overview so that the selection is visible.
    pub fn adjust_workflow_repo_exist_scroll(&mut self, visible: usize)
        requires
            visible == 0 || old(self).workflow_repo_exist_selected < old(
                self,
            ).workflow_repo_exist_scroll || old(self).workflow_repo_exist_scroll + visible
                <= usize::MAX,
        ensures
            *final(self) == (App {
                workflow_repo_exist_scroll: scroll_for(
                    old(self).workflow_repo_exist_selected as int,
                    old(self).workflow_repo_exist_scroll as int,
                    visible as int,
                ) as usize,
                ..*old(self)
            }),
    {
        self.workflow_repo_exist_scroll = adjusted_scroll(
            self.workflow_repo_exist_selected,
            self.workflow_repo_exist_scroll,
            visible,
        );
    }

    /// The address of the selected detail item.
    pub fn selected_detail_url(&self) -> (r: Option<String>)
        ensures
            match selected_repo_of(*self) {
                Some(repo) => if self.detail_selected < detail_count(repo) {
                    r matches Some(u) && u@ == detail_url(repo, self.detail_selected as int)
                } else {
                    r is None
                },
                None => r is None,
            },
    {
        let repo = self.selected_repo()?;
        let items = build_detail_items(repo);
        if self.detail_selected < items.len() {
            Some(items[self.detail_selected].url.clone())
        } else {
            None
        }
    }

    /// Focuses the detail pane on the first pull request, else the first item.
    pub fn focus_detail_first_pr_or_issue(&mut self)
        ensures
            match selected_repo_of(*old(self)) {
                Some(repo) => if detail_count(repo) == 0 {
                    *final(self) == *old(self)
                } else {
                    exists|k: int|
                        {
                            &&& 0 <= k < detail_count(repo)
                            &&& *final(self) == (App {
                                detail_selected: k as usize,
                                detail_scroll: 0,
                                focus: Focus::Detail,
                                ..*old(self)
                            })
                            &&& (k == 0 || detail_entry(repo, k).is_pr)
                            &&& forall|m: int| 0 <= m < k ==> !(#[trigger] detail_entry(repo, m)).is_pr
                            &&& (!detail_entry(repo, k).is_pr ==> forall|m: int|
                                0 <= m < detail_count(repo) ==> !(#[trigger] detail_entry(
                                    repo,
                                    m,
                                )).is_pr)
                        }
                },
                None => *final(self) == *old(self),
            },
    {
        let idx: usize;
        let ghost repo_spec: RepoInfo;
        match self.selected_repo() {
            Some(repo) => {
                proof {
                    repo_spec = *repo;
                }
                let items = build_detail_items(repo);
                if items.len() == 0 {
                    return;
                }
                let mut i: usize = 0;
                while i < items.len() && !items[i].is_pr
                    invariant
                        i <= items@.len(),
                        items@.len() == detail_count(*repo),
                        forall|k: int|
                            0 <= k < items@.len() ==> (#[trigger] items@[k]).is_pr
                                == detail_entry(*repo, k).is_pr,
                        forall|m: int| 0 <= m < i ==> !(#[trigger] detail_entry(*repo, m)).is_pr,
                    decreases items@.len() - i,
                {
                    i += 1;
                }
                idx = if i < items.len() {
                    i
                } else {
                    0
                };
                assert(0 <= idx < detail_count(repo_spec));
                assert(idx == 0 || detail_entry(repo_spec, idx as int).is_pr);
                assert(forall|m: int| 0 <= m < idx ==> !(#[trigger] detail_entry(repo_spec, m)).is_pr);
                assert(!detail_entry(repo_spec, idx as int).is_pr ==> forall|m: int|
                    0 <= m < detail_count(repo_spec) ==> !(#[trigger] detail_entry(repo_spec, m)).is_pr);
            },
            None => {
                return;
            },
        }
        self.detail_selected = idx;
        self.detail_scroll = 0;
        self.focus = Focus::Detail;
        assert(*self == (App {
            detail_selected: idx,
            detail_scroll: 0,
            focus: Focus::Detail,
            ..*old(self)
        }));
        assert(selected_repo_of(*old(self)) == Some(repo_spec));
    }

    /// Appends digit `d` to the number prefix, saturating.
    pub fn push_digit(&mut self, d: u32)
        ensures
            *final(self) == (App {
                num_prefix: prefix_after_digit(old(self).num_prefix, d),
                ..*old(self)
            }),
    {
        let m: u32 = match self.num_prefix.checked_mul(10) {
            Some(v) => v,
            None => u32::MAX,
        };
        self.num_prefix = m.saturating_add(d);
    }

    /// The repeat count typed so far (1 when none) and clears it.
    pub fn consume_prefix(&mut self) -> (n: usize)
        ensures
            n == (if old(self).num_prefix == 0 {
                1
            } else {
                old(self).num_prefix as usize
            }),
            *final(self) == (App { num_prefix: 0, ..*old(self) }),
    {
        let n: usize = if self.num_prefix == 0 {
            1
        } else {
            self.num_prefix as usize
        };
        self.num_prefix = 0;
        n
    }

    /// Shows or hides the log pane.
    pub fn toggle_log(&mut self)
        ensures
            *final(self) == (App { show_log: !old(self).show_log, ..*old(self) }),
    {
        self.show_log = !self.show_log;
    }

    /// Queues an automatic update launch, after those already queued.
    pub fn queue_auto_update_launch(&mut self, request: AutoUpdateLaunchRequest)
        ensures
            final(self).pending_auto_update_launches@ == old(
                self,
            ).pending_auto_update_launches@.push(request),
    {
        self.pending_auto_update_launches.push_back(request);
    }

    /// Takes the oldest queued automatic update launch.
    pub fn pop_pending_auto_update_launch(&mut self) -> (r: Option<AutoUpdateLaunchRequest>)
        ensures
            old(self).pending_auto_update_launches@.len() == 0 ==> r is None
                && final(self).pending_auto_update_launches@ == old(
                self,
            ).pending_auto_update_launches@,
            old(self).pending_auto_update_launches@.len() > 0 ==> r == Some(
                old(self).pending_auto_update_launches@[0],
            ) && final(self).pending_auto_update_launches@ == old(
                self,
            ).pending_auto_update_launches@.drop_first(),
    {
        self.pending_auto_update_launches.pop_front()
    }

    /// Keeps only the newest `MAX_LOG_LINES` lines.
    fn trim_log_lines(lines: &mut Vec<String>)
        ensures
            final(lines)@ == capped_log(old(lines)@),
    {
        if lines.len() > MAX_LOG_LINES {
            let excess = lines.len() - MAX_LOG_LINES;
            let tail = lines.split_off(excess);
            *lines = tail;
        }
    }

    /// Replaces the log with `lines`, keeping only the newest ones.
    pub fn set_log_lines(&mut self, lines: Vec<String>)
        ensures
            final(self).log_lines@ == capped_log(lines@),
            *final(self) == (App { log_lines: final(self).log_lines, ..*old(self) }),
    {
        let mut lines = lines;
        Self::trim_log_lines(&mut lines);
        self.log_lines = lines;
    }

    /// Appends one line to the log, dropping the oldest beyond the cap.
    pub fn append_log_line(&mut self, line: String)
        ensures
            final(self).log_lines@ == capped_log(old(self).log_lines@.push(line)),
            *final(self) == (App { log_lines: final(self).log_lines, ..*old(self) }),
    {
        self.log_lines.push(line);
        Self::trim_log_lines(&mut self.log_lines);
    }
}

} // verus!
