//! Incremental search over repository names.
use vstd::prelude::*;

use crate::app::{
    first_repo_from, lemma_first_repo_from_bounds, min_usize, next_repo_row, ready_msg, ready_msg_text,
    selected_idx, snap_forward, snap_forward_exec, App,
};
use crate::rows::{build_rows, is_repo_row, rows_for, rows_valid, RepoRow, SearchState};
use crate::text::{
    all_ascii, ascii_lowercase, chars_of, contains, is_ws, lemma_words_ascii, lemma_contains_prefix, lemma_words_drop_last, lowercase, pop_char, push_char, push_str, str_contains, string_of,
    to_lowercase, views, words, words_of,
};
use crate::types::RepoInfo;

verus! {

/// The search terms of a query: its whitespace-separated words, lower-cased.
pub open spec fn query_terms(q: Seq<char>) -> Seq<Seq<char>> {
    words(q).map_values(|w: Seq<char>| lowercase(w))
}

/// A repository name contains every term, ignoring case.
pub open spec fn name_matches(name: Seq<char>, terms: Seq<Seq<char>>) -> bool {
    forall|i: int| 0 <= i < terms.len() ==> contains(lowercase(name), #[trigger] terms[i])
}

/// The repository rows of `rows` whose names match every term, in order.
pub open spec fn filter_rows(rows: Seq<RepoRow>, repos: Seq<RepoInfo>, terms: Seq<Seq<char>>) -> Seq<
    RepoRow,
>
    decreases rows.len(),
{
    if rows.len() == 0 {
        seq![]
    } else {
        let prev = filter_rows(rows.drop_last(), repos, terms);
        match rows.last() {
            RepoRow::Repo(idx) => if idx < repos.len() && name_matches(
                repos[idx as int].name@,
                terms,
            ) {
                prev.push(rows.last())
            } else {
                prev
            },
            RepoRow::Separator(_) => prev,
        }
    }
}

/// The rows shown for a query: all rows when it is empty.
pub open spec fn filtered_for(rows: Seq<RepoRow>, repos: Seq<RepoInfo>, q: Seq<char>) -> Seq<
    RepoRow,
> {
    if q.len() == 0 {
        rows
    } else {
        filter_rows(rows, repos, query_terms(q))
    }
}

/// The cursor after filtering: clamped into the rows and snapped onto a
/// repository row.
pub open spec fn cursor_after_filter(filtered: Seq<RepoRow>, c: usize) -> usize {
    if filtered.len() == 0 {
        0
    } else {
        snap_forward(filtered, min_usize(c as int, filtered.len() - 1)) as usize
    }
}

/// Positions of the repository rows, in order.
pub open spec fn repo_positions(rows: Seq<RepoRow>) -> Seq<usize>
    decreases rows.len(),
{
    if rows.len() == 0 {
        seq![]
    } else {
        let prev = repo_positions(rows.drop_last());
        if is_repo_row(rows.last()) {
            prev.push((rows.len() - 1) as usize)
        } else {
            prev
        }
    }
}

/// The first row showing repository `target`, or `rows.len()`.
pub open spec fn position_of_repo(rows: Seq<RepoRow>, target: usize) -> int
    decreases rows.len(),
{
    if rows.len() == 0 {
        0
    } else if rows[0] == RepoRow::Repo(target) {
        0
    } else {
        1 + position_of_repo(rows.drop_first(), target)
    }
}

/// The status line shown while the search prompt is open.
pub open spec fn search_prompt_text() -> Seq<char> {
    "/ (Space=AND, Enter=confirm, Esc=cancel, ^G/^T=next/prev)"@
}

/// Every filtered row is a repository row whose name matches every term.
pub proof fn lemma_filter_rows_sound(rows: Seq<RepoRow>, repos: Seq<RepoInfo>, terms: Seq<Seq<char>>)
    ensures
        forall|k: int|
            0 <= k < filter_rows(rows, repos, terms).len() ==> (#[trigger] filter_rows(
                rows,
                repos,
                terms,
            )[k] matches RepoRow::Repo(idx) && idx < repos.len() && name_matches(
                repos[idx as int].name@,
                terms,
            )),
    decreases rows.len(),
{
    if rows.len() > 0 {
        lemma_filter_rows_sound(rows.drop_last(), repos, terms);
    }
}

/// A repository row that matches every term is kept by the filter.
pub proof fn lemma_filter_rows_complete(
    rows: Seq<RepoRow>,
    repos: Seq<RepoInfo>,
    terms: Seq<Seq<char>>,
    k: int,
)
    requires
        0 <= k < rows.len(),
        rows[k] matches RepoRow::Repo(idx) && idx < repos.len() && name_matches(
            repos[idx as int].name@,
            terms,
        ),
    ensures
        filter_rows(rows, repos, terms).contains(rows[k]),
    decreases rows.len(),
{
    let prev = filter_rows(rows.drop_last(), repos, terms);
    if k < rows.len() - 1 {
        lemma_filter_rows_complete(rows.drop_last(), repos, terms, k);
        let j = choose|j: int| 0 <= j < prev.len() && prev[j] == rows[k];
        assert(filter_rows(rows, repos, terms)[j] == rows[k]);
    } else {
        assert(filter_rows(rows, repos, terms).last() == rows[k]);
    }
}

/// Every filtered row is one of the rows.
pub proof fn lemma_filter_rows_in_rows(
    rows: Seq<RepoRow>,
    repos: Seq<RepoInfo>,
    terms: Seq<Seq<char>>,
    j: int,
)
    requires
        0 <= j < filter_rows(rows, repos, terms).len(),
    ensures
        rows.contains(filter_rows(rows, repos, terms)[j]),
    decreases rows.len(),
{
    let prev = filter_rows(rows.drop_last(), repos, terms);
    if j < prev.len() {
        lemma_filter_rows_in_rows(rows.drop_last(), repos, terms, j);
        let k = choose|k: int| 0 <= k < rows.drop_last().len() && rows.drop_last()[k] == prev[j];
        assert(rows[k] == prev[j]);
    } else {
        assert(filter_rows(rows, repos, terms)[j] == rows.last());
        assert(rows[rows.len() - 1] == rows.last());
    }
}

/// The query left by deleting its last character (none left: unchanged).
pub open spec fn popped_query(q: Seq<char>) -> Seq<char> {
    if q.len() > 0 {
        q.drop_last()
    } else {
        q
    }
}

/// Lower-casing a word without its last character gives a prefix of
/// lower-casing the whole word.
pub open spec fn lowercase_keeps_prefix(w: Seq<char>) -> bool {
    let a = lowercase(w.drop_last());
    a.len() <= lowercase(w).len() && lowercase(w).take(a.len() as int) == a
}

/// The last word of `q`, when `q` ends inside a word, lower-cases to a
/// prefix once shortened.
pub open spec fn pop_keeps_prefix(q: Seq<char>) -> bool {
    q.len() > 0 && !is_ws(q.last()) ==> lowercase_keeps_prefix(words(q).last())
}

/// A name that matches a query matches it without its last character.
pub proof fn lemma_name_matches_popped(name: Seq<char>, q: Seq<char>)
    requires
        q.len() > 0,
        pop_keeps_prefix(q),
        name_matches(name, query_terms(q)),
    ensures
        name_matches(name, query_terms(q.drop_last())),
{
    lemma_words_drop_last(q);
    let w = words(q);
    let w2 = words(q.drop_last());
    let t = query_terms(q);
    let t2 = query_terms(q.drop_last());
    let ln = lowercase(name);
    assert forall|i: int| 0 <= i < t2.len() implies contains(ln, #[trigger] t2[i]) by {
        if is_ws(q.last()) {
            assert(t2[i] == t[i]);
        } else if i < w.len() - 1 {
            assert(w2[i] == w[i]);
            assert(t2[i] == t[i]);
        } else {
            let last = w.len() - 1;
            assert(w2[i] == w[last].drop_last());
            assert(t[last] == lowercase(w[last]));
            assert(contains(ln, t[last]));
            assert(t2[i] == lowercase(w[last].drop_last()));
            lemma_contains_prefix(ln, t[last], t2[i].len() as int);
        }
    }
}

/// Deleting the last character of the search query never hides a
/// repository row that was shown: the rows shown for the shorter query
/// include every row shown before, provided lower-casing the last word
/// without that character gives a prefix of lower-casing the whole word.
pub proof fn law_search_pop_keeps_matches(
    rows: Seq<RepoRow>,
    repos: Seq<RepoInfo>,
    q: Seq<char>,
    x: RepoRow,
)
    ensures
        filtered_for(rows, repos, q).contains(x) && pop_keeps_prefix(q) ==> filtered_for(
            rows,
            repos,
            popped_query(q),
        ).contains(x),
{
    if filtered_for(rows, repos, q).contains(x) && pop_keeps_prefix(q) && q.len() > 0 {
        let f = filter_rows(rows, repos, query_terms(q));
        let j = choose|j: int| 0 <= j < f.len() && f[j] == x;
        lemma_filter_rows_sound(rows, repos, query_terms(q));
        lemma_filter_rows_in_rows(rows, repos, query_terms(q), j);
        let k = choose|k: int| 0 <= k < rows.len() && rows[k] == x;
        if let RepoRow::Repo(idx) = x {
            lemma_name_matches_popped(repos[idx as int].name@, q);
            if q.drop_last().len() > 0 {
                lemma_filter_rows_complete(rows, repos, query_terms(q.drop_last()), k);
            }
        }
    }
}

/// On ASCII words, lower-casing a word without its last character gives a
/// prefix of lower-casing the whole word.
pub proof fn lemma_ascii_keeps_prefix(w: Seq<char>)
    requires
        all_ascii(w),
        w.len() > 0,
    ensures
        lowercase_keeps_prefix(w),
{
    let d = w.drop_last();
    assert forall|i: int| 0 <= i < d.len() implies (#[trigger] d[i]) <= '\x7f' by {
        assert(d[i] == w[i]);
    }
    assert(lowercase(w) == ascii_lowercase(w));
    assert(lowercase(d) == ascii_lowercase(d));
    assert(ascii_lowercase(w).take(d.len() as int) =~= ascii_lowercase(d));
}

/// Deleting the last character of an ASCII search query never hides a
/// repository row that was shown: the rows shown for the shorter query
/// include every row shown before.
pub proof fn law_search_pop_keeps_ascii_matches(
    rows: Seq<RepoRow>,
    repos: Seq<RepoInfo>,
    q: Seq<char>,
    x: RepoRow,
)
    ensures
        filtered_for(rows, repos, q).contains(x) && all_ascii(q) ==> filtered_for(
            rows,
            repos,
            popped_query(q),
        ).contains(x),
{
    if all_ascii(q) && q.len() > 0 && !is_ws(q.last()) {
        lemma_words_drop_last(q);
        lemma_words_ascii(q);
        let w = words(q);
        assert(all_ascii(w[w.len() - 1]));
        lemma_ascii_keeps_prefix(w.last());
    }
    law_search_pop_keeps_matches(rows, repos, q, x);
}

/// After filtering, the cursor is inside the rows and on a repository row
/// whenever there is one.
pub proof fn lemma_cursor_after_filter_on_repo(filtered: Seq<RepoRow>, c: usize)
    requires
        filtered.len() <= usize::MAX,
        exists|k: int| 0 <= k < filtered.len() && is_repo_row(#[trigger] filtered[k]),
    ensures
        0 <= cursor_after_filter(filtered, c) < filtered.len(),
        is_repo_row(filtered[cursor_after_filter(filtered, c) as int]),
{
    let k = choose|k: int| 0 <= k < filtered.len() && is_repo_row(#[trigger] filtered[k]);
    let start = min_usize(c as int, filtered.len() - 1);
    lemma_first_repo_from_bounds(filtered, start);
    lemma_first_repo_from_bounds(filtered, 0);
    if first_repo_from(filtered, 0) >= filtered.len() {
        assert(!is_repo_row(filtered[k]));
    }
}

pub proof fn lemma_position_of_repo_at(rows: Seq<RepoRow>, target: usize, n: int)
    requires
        0 <= n <= rows.len(),
        n < rows.len() ==> rows[n] == RepoRow::Repo(target),
        forall|k: int| 0 <= k < n ==> #[trigger] rows[k] != RepoRow::Repo(target),
    ensures
        position_of_repo(rows, target) == n,
    decreases n,
{
    if n > 0 {
        assert forall|k: int| 0 <= k < n - 1 implies #[trigger] rows.drop_first()[k]
            != RepoRow::Repo(target) by {
            assert(rows.drop_first()[k] == rows[k + 1]);
        }
        lemma_position_of_repo_at(rows.drop_first(), target, n - 1);
    }
}

/// A copy of a list of rows.
fn copy_rows(v: &Vec<RepoRow>) -> (r: Vec<RepoRow>)
    ensures
        r@ == v@,
{
    let mut r: Vec<RepoRow> = Vec::new();
    let mut i: usize = 0;
    while i < v.len()
        invariant
            i <= v@.len(),
            r@ == v@.take(i as int),
        decreases v@.len() - i,
    {
        r.push(v[i]);
        i += 1;
        assert(r@ =~= v@.take(i as int));
    }
    assert(v@.take(v@.len() as int) =~= v@);
    r
}

/// The search terms of `query`.
fn terms_of(query: &str) -> (r: Vec<String>)
    ensures
        r@.map_values(|s: String| s@) == query_terms(query@),
{
    let ws = words_of(&chars_of(query));
    let mut r: Vec<String> = Vec::new();
    let mut i: usize = 0;
    while i < ws.len()
        invariant
            i <= ws@.len(),
            views(ws@) == words(query@),
            r@.map_values(|s: String| s@) == views(ws@).take(i as int).map_values(
                |w: Seq<char>| lowercase(w),
            ),
        decreases ws@.len() - i,
    {
        let word = string_of(ws[i].as_slice());
        let ghost before = r@;
        let lw = to_lowercase(word.as_str());
        r.push(lw);
        assert(views(ws@)[i as int] == ws@[i as int]@);
        assert(r@ =~= before.push(lw));
        assert(r@.map_values(|s: String| s@) =~= before.map_values(|s: String| s@).push(lw@));
        assert(views(ws@).take(i + 1) =~= views(ws@).take(i as int).push(views(ws@)[i as int]));
        assert(r@.map_values(|s: String| s@) =~= views(ws@).take(i + 1).map_values(
            |w: Seq<char>| lowercase(w),
        ));
        i += 1;
    }
    assert(views(ws@).take(ws@.len() as int) =~= views(ws@));
    r
}

/// A repository name contains every term, ignoring case.
fn name_matches_exec(name: &str, terms: &Vec<String>) -> (r: bool)
    ensures
        r == name_matches(name@, terms@.map_values(|s: String| s@)),
{
    let lower = to_lowercase(name);
    let ghost ts = terms@.map_values(|s: String| s@);
    let mut i: usize = 0;
    while i < terms.len()
        invariant
            i <= terms@.len(),
            ts == terms@.map_values(|s: String| s@),
            lower@ == lowercase(name@),
            forall|k: int| 0 <= k < i ==> contains(lowercase(name@), #[trigger] ts[k]),
        decreases terms@.len() - i,
    {
        if !str_contains(lower.as_str(), terms[i].as_str()) {
            assert(ts[i as int] == terms@[i as int]@);
            return false;
        }
        i += 1;
    }
    true
}

/// `b` is `a` once a search has started: empty query, the cursor saved,
/// the prompt shown.
pub open spec fn search_entered(a: App, b: App) -> bool {
    &&& b.search_query@.len() == 0
    &&& b.status_msg@ == search_prompt_text()
    &&& b == (App {
        search_state: SearchState::Active,
        search_saved_cursor: a.row_cursor,
        search_query: b.search_query,
        search_match_idx: 0,
        status_msg: b.status_msg,
        ..a
    })
}

/// `b` is `a` once `c` was typed into the query: the rows refiltered and
/// the cursor on the first match.
pub open spec fn search_pushed(a: App, b: App, c: char) -> bool {
    &&& b.search_query@ == a.search_query@.push(c)
    &&& b.filtered_rows@ == filtered_for(a.rows@, a.repos@, a.search_query@.push(c))
    &&& b.filtered_rows@.len() > 0 ==> b == (App {
        search_query: b.search_query,
        filtered_rows: b.filtered_rows,
        row_cursor: snap_forward(b.filtered_rows@, 0) as usize,
        row_scroll: 0,
        search_match_idx: 0,
        ..a
    })
    &&& b.filtered_rows@.len() == 0 ==> b == (App {
        search_query: b.search_query,
        filtered_rows: b.filtered_rows,
        row_cursor: 0,
        search_match_idx: 0,
        ..a
    })
}

/// `b` is `a` once the search was cancelled: no query, every row shown,
/// the saved cursor back (clamped into the rows) and scrolled into view.
pub open spec fn search_cancelled(a: App, b: App) -> bool {
    let c = min_usize(
        a.search_saved_cursor as int,
        if a.rows@.len() == 0 {
            0
        } else {
            a.rows@.len() - 1
        },
    );
    &&& b.search_query@.len() == 0
    &&& b.filtered_rows@ == a.rows@
    &&& b.status_msg@ == ready_msg_text()
    &&& b == (App {
        search_state: SearchState::Off,
        search_query: b.search_query,
        filtered_rows: b.filtered_rows,
        row_cursor: c as usize,
        row_scroll: (if c >= a.left_visible / 2 {
            c - a.left_visible / 2
        } else {
            0
        }) as usize,
        status_msg: b.status_msg,
        ..a
    })
}

/// `b` is `a` once the search was confirmed: no query, every row shown,
/// and the cursor on the row of the repository that was selected (where it
/// was when that repository is not listed).
pub open spec fn search_confirmed(a: App, b: App) -> bool {
    &&& b.search_query@.len() == 0
    &&& b.filtered_rows@ == a.rows@
    &&& b.status_msg@ == ready_msg_text()
    &&& ({
        let target = selected_idx(a.filtered_rows@, a.row_cursor as int);
        let pos = match target {
            Some(t) => position_of_repo(a.rows@, t),
            None => a.rows@.len() as int,
        };
        if pos < a.rows@.len() {
            b == (App {
                search_state: SearchState::Off,
                search_query: b.search_query,
                filtered_rows: b.filtered_rows,
                row_cursor: pos as usize,
                row_scroll: (if pos >= a.left_visible / 2 {
                    pos - a.left_visible / 2
                } else {
                    0
                }) as usize,
                status_msg: b.status_msg,
                ..a
            })
        } else {
            b == (App {
                search_state: SearchState::Off,
                search_query: b.search_query,
                filtered_rows: b.filtered_rows,
                status_msg: b.status_msg,
                ..a
            })
        }
    })
}

/// The first row of `rows` showing `target` is found when there is one.
pub proof fn lemma_position_of_repo_found(rows: Seq<RepoRow>, target: usize)
    requires
        rows.contains(RepoRow::Repo(target)),
    ensures
        0 <= position_of_repo(rows, target) < rows.len(),
        rows[position_of_repo(rows, target)] == RepoRow::Repo(target),
    decreases rows.len(),
{
    if rows[0] != RepoRow::Repo(target) {
        let k = choose|k: int| 0 <= k < rows.len() && rows[k] == RepoRow::Repo(target);
        assert(rows.drop_first()[k - 1] == RepoRow::Repo(target));
        lemma_position_of_repo_found(rows.drop_first(), target);
        assert(rows[position_of_repo(rows, target)] == rows.drop_first()[position_of_repo(
            rows.drop_first(),
            target,
        )]);
    }
}

/// Confirming a search keeps the selected repository selected: the cursor
/// moves to its row in the full list.
pub proof fn law_search_confirm_keeps_selection(a: App, b: App, t: usize)
    requires
        search_confirmed(a, b),
        selected_idx(a.filtered_rows@, a.row_cursor as int) == Some(t),
        a.rows@.contains(RepoRow::Repo(t)),
    ensures
        selected_idx(b.filtered_rows@, b.row_cursor as int) == Some(t),
        b.filtered_rows@ == a.rows@,
        b.search_state == SearchState::Off,
{
    lemma_position_of_repo_found(a.rows@, t);
    assert(a.rows.len() == a.rows@.len());
    let pos = position_of_repo(a.rows@, t);
    assert(b.row_cursor as int == pos);
}

/// Starting a search, typing a character and cancelling puts the cursor
/// back on the row it was on and shows every row again; the repositories
/// and their rows are untouched.
pub proof fn law_search_cancel_restores_cursor(a0: App, a1: App, a2: App, a3: App, c: char)
    requires
        a0.row_cursor < a0.rows@.len(),
        search_entered(a0, a1),
        search_pushed(a1, a2, c),
        search_cancelled(a2, a3),
    ensures
        a3.row_cursor == a0.row_cursor,
        a3.filtered_rows@ == a0.rows@,
        a3.search_state == SearchState::Off,
        a3.search_query@.len() == 0,
        a3.rows == a0.rows,
        a3.repos == a0.repos,
{
}

impl App {
    /// Recomputes the shown rows for the current query and puts the cursor
    /// back on a repository row.
    pub fn apply_filter(&mut self)
        requires
            old(self).search_query@.len() == 0 || rows_valid(
                old(self).rows@,
                old(self).repos@.len(),
            ),
        ensures
            final(self).filtered_rows@ == filtered_for(
                old(self).rows@,
                old(self).repos@,
                old(self).search_query@,
            ),
            *final(self) == (App {
                filtered_rows: final(self).filtered_rows,
                row_cursor: cursor_after_filter(final(self).filtered_rows@, old(self).row_cursor),
                ..*old(self)
            }),
    {
        if self.search_query.as_str().is_empty() {
            self.filtered_rows = copy_rows(&self.rows);
        } else {
            let terms = terms_of(self.search_query.as_str());
            let ghost ts = terms@.map_values(|s: String| s@);
            let mut out: Vec<RepoRow> = Vec::new();
            let mut i: usize = 0;
            while i < self.rows.len()
                invariant
                    i <= self.rows@.len(),
                    *self == *old(self),
                    rows_valid(self.rows@, self.repos@.len()),
                    ts == query_terms(self.search_query@),
                    ts == terms@.map_values(|s: String| s@),
                    out@ == filter_rows(self.rows@.take(i as int), self.repos@, ts),
                decreases self.rows@.len() - i,
            {
                assert(self.rows@.take(i + 1).drop_last() =~= self.rows@.take(i as int));
                match self.rows[i] {
                    RepoRow::Repo(idx) => {
                        if name_matches_exec(self.repos[idx].name.as_str(), &terms) {
                            out.push(RepoRow::Repo(idx));
                        }
                    },
                    RepoRow::Separator(_) => {},
                }
                i += 1;
            }
            assert(self.rows@.take(self.rows@.len() as int) =~= self.rows@);
            self.filtered_rows = out;
        }
        if self.filtered_rows.len() == 0 {
            self.row_cursor = 0;
        } else {
            let last = self.filtered_rows.len() - 1;
            let c = if self.row_cursor <= last {
                self.row_cursor
            } else {
                last
            };
            self.row_cursor = snap_forward_exec(self.filtered_rows.as_slice(), c);
        }
    }

    /// Rebuilds the rows from `repos` and applies the current filter.
    pub fn rebuild_rows(&mut self)
        ensures
            final(self).rows@ == rows_for(old(self).repos@),
            final(self).filtered_rows@ == filtered_for(
                rows_for(old(self).repos@),
                old(self).repos@,
                old(self).search_query@,
            ),
            *final(self) == (App {
                rows: final(self).rows,
                filtered_rows: final(self).filtered_rows,
                row_cursor: cursor_after_filter(final(self).filtered_rows@, old(self).row_cursor),
                ..*old(self)
            }),
    {
        self.rows = build_rows(self.repos.as_slice());
        self.apply_filter();
    }

    /// Opens the search prompt with an empty query, remembering the cursor.
    pub fn search_enter(&mut self)
        ensures
            search_entered(*old(self), *final(self)),
    {
        self.search_state = SearchState::Active;
        self.search_saved_cursor = self.row_cursor;
        self.search_query = String::new();
        self.search_match_idx = 0;
        let mut msg = String::new();
        push_str(&mut msg, "/ (Space=AND, Enter=confirm, Esc=cancel, ^G/^T=next/prev)");
        assert(msg@ =~= search_prompt_text());
        self.status_msg = msg;
    }

    /// Types `c` into the query, refilters and jumps to the first match.
    pub fn search_push(&mut self, c: char)
        requires
            rows_valid(old(self).rows@, old(self).repos@.len()),
        ensures
            search_pushed(*old(self), *final(self), c),
    {
        push_char(&mut self.search_query, c);
        self.apply_filter();
        self.search_match_idx = 0;
        if self.filtered_rows.len() > 0 {
            self.row_cursor = snap_forward_exec(self.filtered_rows.as_slice(), 0);
            self.row_scroll = 0;
        }
    }

    /// Deletes the last query character, refilters and jumps to the first match.
    pub fn search_pop(&mut self)
        requires
            old(self).search_query@.len() > 1 ==> rows_valid(old(self).rows@, old(self).repos@.len()),
        ensures
            final(self).search_query@ == (if old(self).search_query@.len() > 0 {
                old(self).search_query@.drop_last()
            } else {
                old(self).search_query@
            }),
            final(self).filtered_rows@ == filtered_for(
                old(self).rows@,
                old(self).repos@,
                final(self).search_query@,
            ),
            final(self).filtered_rows@.len() > 0 ==> *final(self) == (App {
                search_query: final(self).search_query,
                filtered_rows: final(self).filtered_rows,
                row_cursor: snap_forward(final(self).filtered_rows@, 0) as usize,
                row_scroll: 0,
                ..*old(self)
            }),
            final(self).filtered_rows@.len() == 0 ==> *final(self) == (App {
                search_query: final(self).search_query,
                filtered_rows: final(self).filtered_rows,
                row_cursor: 0,
                ..*old(self)
            }),
    {
        let _ = pop_char(&mut self.search_query);
        self.apply_filter();
        if self.filtered_rows.len() > 0 {
            self.row_cursor = snap_forward_exec(self.filtered_rows.as_slice(), 0);
            self.row_scroll = 0;
        }
    }

    /// The positions of the repository rows currently shown.
    fn match_positions(&self) -> (r: Vec<usize>)
        ensures
            r@ == repo_positions(self.filtered_rows@),
    {
        let mut r: Vec<usize> = Vec::new();
        let mut i: usize = 0;
        while i < self.filtered_rows.len()
            invariant
                i <= self.filtered_rows@.len(),
                r@ == repo_positions(self.filtered_rows@.take(i as int)),
            decreases self.filtered_rows@.len() - i,
        {
            assert(self.filtered_rows@.take(i + 1).drop_last() =~= self.filtered_rows@.take(
                i as int,
            ));
            match self.filtered_rows[i] {
                RepoRow::Repo(_) => {
                    r.push(i);
                },
                RepoRow::Separator(_) => {},
            }
            i += 1;
        }
        assert(self.filtered_rows@.take(self.filtered_rows@.len() as int) =~= self.filtered_rows@);
        r
    }

    /// Cycles the cursor forward to the next shown repository.
    pub fn search_next_match(&mut self)
        requires
            repo_positions(old(self).filtered_rows@).len() == 0 || old(self).search_match_idx
                < usize::MAX,
        ensures
            ({
                let m = repo_positions(old(self).filtered_rows@);
                if m.len() == 0 {
                    *final(self) == *old(self)
                } else {
                    let idx = ((old(self).search_match_idx + 1) % (m.len() as int)) as usize;
                    *final(self) == (App {
                        search_match_idx: idx,
                        row_cursor: m[idx as int],
                        row_scroll: (if m[idx as int] >= old(self).left_visible / 2 {
                            m[idx as int] - old(self).left_visible / 2
                        } else {
                            0
                        }) as usize,
                        ..*old(self)
                    })
                }
            }),
    {
        let matches = self.match_positions();
        if matches.len() == 0 {
            return;
        }
        self.search_match_idx = (self.search_match_idx + 1) % matches.len();
        self.row_cursor = matches[self.search_match_idx];
        self.row_scroll = self.row_cursor.saturating_sub(self.left_visible / 2);
    }

    /// Cycles the cursor backward to the previous shown repository.
    pub fn search_prev_match(&mut self)
        requires
            repo_positions(old(self).filtered_rows@).len() == 0 || old(self).search_match_idx
                <= repo_positions(old(self).filtered_rows@).len(),
        ensures
            ({
                let m = repo_positions(old(self).filtered_rows@);
                if m.len() == 0 {
                    *final(self) == *old(self)
                } else {
                    let idx = (if old(self).search_match_idx == 0 {
                        m.len() - 1
                    } else {
                        old(self).search_match_idx - 1
                    }) as usize;
                    *final(self) == (App {
                        search_match_idx: idx,
                        row_cursor: m[idx as int],
                        row_scroll: (if m[idx as int] >= old(self).left_visible / 2 {
                            m[idx as int] - old(self).left_visible / 2
                        } else {
                            0
                        }) as usize,
                        ..*old(self)
                    })
                }
            }),
    {
        let matches = self.match_positions();
        if matches.len() == 0 {
            return;
        }
        self.search_match_idx = if self.search_match_idx == 0 {
            matches.len() - 1
        } else {
            self.search_match_idx - 1
        };
        self.row_cursor = matches[self.search_match_idx];
        self.row_scroll = self.row_cursor.saturating_sub(self.left_visible / 2);
    }

    /// Closes the search, clears the filter and keeps the cursor on the
    /// repository it was on.
    pub fn search_confirm(&mut self)
        ensures
            search_confirmed(*old(self), *final(self)),
    {
        self.search_state = SearchState::Off;
        let target = self.selected_repo_idx();
        self.search_query = String::new();
        self.filtered_rows = copy_rows(&self.rows);
        if let Some(t) = target {
            let mut i: usize = 0;
            while i < self.filtered_rows.len()
                invariant
                    i <= self.filtered_rows@.len(),
                    self.filtered_rows@ == old(self).rows@,
                    self.search_query@.len() == 0,
                    Some(t) == selected_idx(old(self).filtered_rows@, old(self).row_cursor as int),
                    *self == (App {
                        search_state: SearchState::Off,
                        search_query: self.search_query,
                        filtered_rows: self.filtered_rows,
                        ..*old(self)
                    }),
                    forall|k: int| 0 <= k < i ==> #[trigger] self.filtered_rows@[k] != RepoRow::Repo(t),
                decreases self.filtered_rows@.len() - i,
            {
                if self.filtered_rows[i] == RepoRow::Repo(t) {
                    proof {
                        lemma_position_of_repo_at(old(self).rows@, t, i as int);
                    }
                    self.row_cursor = i;
                    self.row_scroll = i.saturating_sub(self.left_visible / 2);
                    self.status_msg = ready_msg();
                    return;
                }
                i += 1;
            }
            proof {
                lemma_position_of_repo_at(old(self).rows@, t, i as int);
            }
        }
        self.status_msg = ready_msg();
    }

    /// Closes the search, clears the filter and restores the saved cursor.
    pub fn search_cancel(&mut self)
        ensures
            search_cancelled(*old(self), *final(self)),
    {
        self.search_state = SearchState::Off;
        self.search_query = String::new();
        self.apply_filter();
        let max = self.filtered_rows.len().saturating_sub(1);
        self.row_cursor = if self.search_saved_cursor <= max {
            self.search_saved_cursor
        } else {
            max
        };
        self.row_scroll = self.row_cursor.saturating_sub(self.left_visible / 2);
        self.status_msg = ready_msg();
    }
}

} // verus!
