//! What a finished installed-hash check does to the application state, and
//! which polls to start: the decisions taken between the checks that run in
//! the background.
use vstd::prelude::*;

use crate::app::App;
use crate::app_polls::{
    CARGO_HASH_POLL_INTERVAL, CargoHashPoll, ExpiredCargoHashPoll, due_names, expired_polls,
    is_due, is_expired, poll_index, poll_names_unique, poll_tuples, polls_after_start, polls_without,
    polls_without_all, running_tuple,
};
use crate::history::{find_first_named, first_named};
use crate::text::{push_str, str_eq};
use crate::types::{AutoUpdateLaunchRequest, RepoInfo};

verus! {

/// `new` is `old` with a poll's check result written into its cargo fields
/// (stamped with the push time); nothing changes without a result.
pub open spec fn poll_applied(
    old: RepoInfo,
    new: RepoInfo,
    result: Option<(bool, String, String, String)>,
) -> bool {
    match result {
        Some((ok, installed, local, remote)) => new == RepoInfo {
            cargo_install: Some(ok),
            cargo_checked_at: local,
            cargo_remote_hash: remote,
            cargo_remote_hash_checked_at: old.updated_at_raw,
            cargo_installed_hash: installed,
            ..old
        },
        None => new == old,
    }
}

/// The check found the installed hash equal to the remote's.
pub open spec fn poll_matched(result: Option<(bool, String, String, String)>) -> bool {
    result matches Some((_, installed, _, remote)) && installed@ == remote@
}

/// Writes a poll's check result into `repo`; tells whether the installed
/// hash is now the remote's.
pub fn apply_cargo_hash_poll_result(
    repo: &mut RepoInfo,
    result: Option<(bool, String, String, String)>,
) -> (r: bool)
    ensures
        poll_applied(*old(repo), *final(repo), result),
        r == poll_matched(result),
{
    match result {
        Some((ok, installed_hash, local_hash, remote_hash)) => {
            let matches_remote = str_eq(installed_hash.as_str(), remote_hash.as_str());
            repo.cargo_install = Some(ok);
            repo.cargo_checked_at = local_hash;
            repo.cargo_remote_hash = remote_hash;
            repo.cargo_remote_hash_checked_at = repo.updated_at_raw.clone();
            repo.cargo_installed_hash = installed_hash;
            matches_remote
        },
        None => false,
    }
}

/// `installed hash 確認結果: installed_hash=<i> remote_hash=<r>`.
pub open spec fn hash_check_text(installed: Seq<char>, remote: Seq<char>) -> Seq<char> {
    "installed hash 確認結果: installed_hash="@ + installed + " remote_hash="@ + remote
}

/// The line of the auto-update log that gives both hashes.
pub fn format_installed_hash_check_log(installed_hash: &str, remote_hash: &str) -> (r: String)
    ensures
        r@ == hash_check_text(installed_hash@, remote_hash@),
{
    let mut s = String::new();
    push_str(&mut s, "installed hash 確認結果: installed_hash=");
    push_str(&mut s, installed_hash);
    push_str(&mut s, " remote_hash=");
    push_str(&mut s, remote_hash);
    s
}

/// What the caller does after a poll's check: persist the repository's
/// cargo fields, add a status log line, append to the auto-update log.
pub struct CargoPollActions {
    pub persist: Option<RepoInfo>,
    pub log_line: Option<String>,
    pub auto_update_log: Option<(String, Vec<String>)>,
}

/// `cargo hash polling completed: <repo> installed==remote`.
pub open spec fn completed_text(full_name: Seq<char>) -> Seq<char> {
    "cargo hash polling completed: "@ + full_name + " installed==remote"@
}

/// `cargo hash polling timed out after 30m: <repo>`.
pub open spec fn timed_out_text(full_name: Seq<char>) -> Seq<char> {
    "cargo hash polling timed out after 30m: "@ + full_name
}

/// The auto-update log lines when the hashes matched.
pub open spec fn matched_messages(installed: Seq<char>, remote: Seq<char>) -> Seq<Seq<char>> {
    seq![
        hash_check_text(installed, remote),
        "installed hash が remote hash と一致したので、この repo の polling を終了します。"@,
    ]
}

/// The auto-update log lines when polling timed out.
pub open spec fn timeout_messages(installed: Seq<char>, remote: Seq<char>) -> Seq<Seq<char>> {
    seq![
        hash_check_text(installed, remote),
        "30分経過しても remote hash と一致しなかったため、この repo の polling を終了します。"@,
    ]
}

/// The auto-update log lines when the hashes still differ.
pub open spec fn retry_messages(installed: Seq<char>, remote: Seq<char>) -> Seq<Seq<char>> {
    seq![
        hash_check_text(installed, remote),
        "まだ remote hash と相違していますので、1分後にまた installed hash を確認します。"@,
    ]
}

/// The auto-update log line when the check gave no result.
pub open spec fn no_result_messages() -> Seq<Seq<char>> {
    seq![
        "installed hash を確認しましたが結果を取得できませんでした。1分後にまた installed hash を確認します。"@,
    ]
}

/// The view of an auto-update log entry.
pub open spec fn log_entry_view(e: Option<(String, Vec<String>)>) -> Option<(Seq<char>, Seq<Seq<char>>)> {
    match e {
        Some((n, m)) => Some((n@, m@.map_values(|s: String| s@))),
        None => None,
    }
}

/// The view of an optional line.
pub open spec fn line_view(l: Option<String>) -> Option<Seq<char>> {
    match l {
        Some(s) => Some(s@),
        None => None,
    }
}

/// The hashes reported in the auto-update log: the ones just written when
/// the poll follows an update and the check gave a result, else empty.
pub open spec fn reported_hashes(
    auto: bool,
    result: Option<(bool, String, String, String)>,
) -> (Seq<char>, Seq<char>) {
    match result {
        Some((_, installed, _, remote)) => if auto {
            (installed@, remote@)
        } else {
            (Seq::empty(), Seq::empty())
        },
        None => (Seq::empty(), Seq::empty()),
    }
}

/// The poll of `name` after a check ended at `now` without a match: whether
/// it timed out, and the polls left.
pub open spec fn finished_polls(polls: Seq<CargoHashPoll>, name: Seq<char>, now: i128) -> (
    bool,
    Seq<(Seq<char>, i128, i128, bool, bool)>,
) {
    let i = poll_index(polls, name);
    if i == polls.len() {
        (false, poll_tuples(polls))
    } else if is_expired(polls[i], now) {
        (true, poll_tuples(polls.remove(i)))
    } else {
        (
            false,
            poll_tuples(polls).update(
                i,
                (
                    polls[i].repo_name@,
                    polls[i].started_at,
                    (now + CARGO_HASH_POLL_INTERVAL) as i128,
                    false,
                    polls[i].after_auto_update,
                ),
            ),
        )
    }
}

/// Whether the poll of `name` follows an automatic update.
pub open spec fn follows_update(polls: Seq<CargoHashPoll>, name: Seq<char>) -> bool {
    poll_index(polls, name) < polls.len() && polls[poll_index(polls, name)].after_auto_update
}

/// A copy of a list of strings made from string slices.
fn lines_of_strs(a: &str, b: &str) -> (r: Vec<String>)
    ensures
        r@.map_values(|s: String| s@) == seq![a@, b@],
{
    let mut r: Vec<String> = Vec::new();
    r.push(a.to_owned());
    r.push(b.to_owned());
    assert(r@.map_values(|s: String| s@) =~= seq![a@, b@]);
    r
}

impl App {
    /// Takes in the result of one poll's check of `name`, finished at `now`.
    ///
    /// The repository's cargo fields take the result.  When the installed
    /// hash now equals the remote's, polling stops; otherwise the attempt is
    /// finished (polling ends after the timeout, else is rescheduled).  The
    /// returned actions name what to persist and log.
    pub fn handle_cargo_hash_poll_result_at(
        &mut self,
        name: &str,
        result: Option<(bool, String, String, String)>,
        now: i128,
    ) -> (r: CargoPollActions)
        requires
            now + CARGO_HASH_POLL_INTERVAL <= i128::MAX,
        ensures
            ({
                let repos = old(self).repos@;
                let polls = old(self).cargo_hash_polls@;
                let i = first_named(repos, name@);
                let auto = follows_update(polls, name@);
                let matched = i >= 0 && poll_matched(result);
                let (hi, hr) = reported_hashes(auto, result);
                &&& final(self).repos@.len() == repos.len()
                &&& forall|k: int|
                    0 <= k < repos.len() && k != i ==> #[trigger] final(self).repos@[k] == repos[k]
                &&& i >= 0 ==> poll_applied(repos[i], final(self).repos@[i], result)
                &&& (i >= 0 <==> r.persist is Some)
                &&& i >= 0 ==> crate::types::same_repo(r.persist->Some_0, final(self).repos@[i])
                &&& if matched {
                    &&& poll_tuples(final(self).cargo_hash_polls@) == poll_tuples(
                        polls_without(polls, name@),
                    )
                    &&& line_view(r.log_line) == Some(completed_text(repos[i].full_name@))
                    &&& log_entry_view(r.auto_update_log) == if auto {
                        Some((repos[i].full_name@, matched_messages(hi, hr)))
                    } else {
                        None
                    }
                } else if finished_polls(polls, name@, now).0 {
                    &&& poll_tuples(final(self).cargo_hash_polls@) == finished_polls(
                        polls,
                        name@,
                        now,
                    ).1
                    &&& line_view(r.log_line) == if i >= 0 {
                        Some(timed_out_text(repos[i].full_name@))
                    } else {
                        None
                    }
                    &&& log_entry_view(r.auto_update_log) == if i >= 0 && auto {
                        Some((repos[i].full_name@, timeout_messages(hi, hr)))
                    } else {
                        None
                    }
                } else {
                    &&& poll_tuples(final(self).cargo_hash_polls@) == finished_polls(
                        polls,
                        name@,
                        now,
                    ).1
                    &&& r.log_line is None
                    &&& log_entry_view(r.auto_update_log) == if i >= 0 && auto {
                        if result is Some {
                            Some((repos[i].full_name@, retry_messages(hi, hr)))
                        } else {
                            Some((repos[i].full_name@, no_result_messages()))
                        }
                    } else {
                        None
                    }
                }
            }),
            *final(self) == (App {
                repos: final(self).repos,
                cargo_hash_polls: final(self).cargo_hash_polls,
                ..*old(self)
            }),
    {
        let ghost repos0 = self.repos@;
        let ghost polls0 = self.cargo_hash_polls@;
        let ghost res_v = result;
        let auto = self.cargo_hash_poll_after_auto_update(name);
        let succeeded = result.is_some();
        let found = find_first_named(&self.repos, name);
        let mut full_name: Option<String> = None;
        let mut hi = String::new();
        let mut hr = String::new();
        let mut persist: Option<RepoInfo> = None;
        let matched = match found {
            Some(i) => {
                let mut repo = self.repos.remove(i);
                full_name = Some(repo.full_name.clone());
                let m = apply_cargo_hash_poll_result(&mut repo, result);
                if auto && succeeded {
                    hi = repo.cargo_installed_hash.clone();
                    hr = repo.cargo_remote_hash.clone();
                }
                persist = Some(repo.duplicate());
                self.repos.insert(i, repo);
                proof {
                    assert(self.repos@ =~= repos0.update(i as int, self.repos@[i as int]));
                }
                m
            },
            None => false,
        };
        let ghost mid = *self;
        assert(mid.cargo_hash_polls@ == polls0);
        let mut log_line: Option<String> = None;
        let mut auto_update_log: Option<(String, Vec<String>)> = None;
        if matched {
            self.stop_cargo_hash_polling(name);
            match &full_name {
                Some(f) => {
                    let mut l = String::new();
                    push_str(&mut l, "cargo hash polling completed: ");
                    push_str(&mut l, f.as_str());
                    push_str(&mut l, " installed==remote");
                    log_line = Some(l);
                    if auto {
                        let h = format_installed_hash_check_log(hi.as_str(), hr.as_str());
                        let msgs = lines_of_strs(
                            h.as_str(),
                            "installed hash が remote hash と一致したので、この repo の polling を終了します。",
                        );
                        auto_update_log = Some((f.clone(), msgs));
                    }
                },
                None => {},
            }
        } else if self.finish_cargo_hash_poll_attempt_at(name, now) {
            match &full_name {
                Some(f) => {
                    let mut l = String::new();
                    push_str(&mut l, "cargo hash polling timed out after 30m: ");
                    push_str(&mut l, f.as_str());
                    log_line = Some(l);
                    if auto {
                        let h = format_installed_hash_check_log(hi.as_str(), hr.as_str());
                        let msgs = lines_of_strs(
                            h.as_str(),
                            "30分経過しても remote hash と一致しなかったため、この repo の polling を終了します。",
                        );
                        auto_update_log = Some((f.clone(), msgs));
                    }
                },
                None => {},
            }
        } else if auto {
            match &full_name {
                Some(f) => {
                    if succeeded {
                        let h = format_installed_hash_check_log(hi.as_str(), hr.as_str());
                        let msgs = lines_of_strs(
                            h.as_str(),
                            "まだ remote hash と相違していますので、1分後にまた installed hash を確認します。",
                        );
                        auto_update_log = Some((f.clone(), msgs));
                    } else {
                        let mut msgs: Vec<String> = Vec::new();
                        msgs.push(
                            "installed hash を確認しましたが結果を取得できませんでした。1分後にまた installed hash を確認します。".to_owned(),
                        );
                        assert(msgs@.map_values(|s: String| s@) =~= no_result_messages());
                        auto_update_log = Some((f.clone(), msgs));
                    }
                },
                None => {},
            }
        }
        CargoPollActions { persist, log_line, auto_update_log }
    }
}

/// A poll's values other than whether its check is running.
pub open spec fn poll_plan(t: (Seq<char>, i128, i128, bool, bool)) -> (Seq<char>, i128, i128, bool) {
    (t.0, t.1, t.2, t.4)
}

/// The status log lines for expired polls of known repositories, and the
/// auto-update log entries for those that followed an update.
pub open spec fn expiry_logs(
    expired: Seq<(Seq<char>, bool)>,
    repos: Seq<RepoInfo>,
) -> (Seq<Seq<char>>, Seq<(Seq<char>, Seq<Seq<char>>)>)
    decreases expired.len(),
{
    if expired.len() == 0 {
        (seq![], seq![])
    } else {
        let prev = expiry_logs(expired.drop_last(), repos);
        let e = expired.last();
        let i = first_named(repos, e.0);
        if i < 0 {
            prev
        } else {
            let repo = repos[i];
            (
                prev.0.push(timed_out_text(repo.full_name@)),
                if e.1 {
                    prev.1.push(
                        (
                            repo.full_name@,
                            timeout_messages(repo.cargo_installed_hash@, repo.cargo_remote_hash@),
                        ),
                    )
                } else {
                    prev.1
                },
            )
        }
    }
}

/// What the caller does when polls come due: log the expired ones and run
/// a check for each repository in `to_check`.
pub struct DuePollActions {
    pub log_lines: Vec<String>,
    pub auto_update_logs: Vec<(String, Vec<String>)>,
    pub to_check: Vec<String>,
}

/// The views of auto-update log entries.
pub open spec fn log_entries_view(v: Seq<(String, Vec<String>)>) -> Seq<(Seq<char>, Seq<Seq<char>>)> {
    v.map_values(|e: (String, Vec<String>)| (e.0@, e.1@.map_values(|s: String| s@)))
}

/// Lists of polls that hold the same values have the same due polls.
pub proof fn lemma_due_names_congruent(a: Seq<CargoHashPoll>, b: Seq<CargoHashPoll>, now: i128)
    requires
        poll_tuples(a) == poll_tuples(b),
    ensures
        due_names(a, now) == due_names(b, now),
    decreases a.len(),
{
    assert(a.len() == poll_tuples(a).len());
    assert(b.len() == poll_tuples(b).len());
    if a.len() > 0 {
        assert(poll_tuples(a.drop_last()) =~= poll_tuples(a).drop_last());
        assert(poll_tuples(b.drop_last()) =~= poll_tuples(b).drop_last());
        lemma_due_names_congruent(a.drop_last(), b.drop_last(), now);
        assert(poll_tuples(a)[a.len() - 1] == poll_tuples(b)[b.len() - 1]);
    }
}

/// The values of the `m`th poll once the polls of the names in `marked`
/// have been marked running: a due poll among them is running, the others
/// are as they were.
pub open spec fn marked_tuple(
    polls: Seq<CargoHashPoll>,
    marked: Seq<Seq<char>>,
    m: int,
    now: i128,
) -> (Seq<char>, i128, i128, bool, bool) {
    if is_due(polls[m], now) && marked.contains(polls[m].repo_name@) {
        running_tuple(polls[m])
    } else {
        poll_tuples(polls)[m]
    }
}

/// Marking the next due name keeps each poll at its `marked_tuple`.
proof fn lemma_mark_step(
    bl: Seq<CargoHashPoll>,
    cur: Seq<CargoHashPoll>,
    after: Seq<CargoHashPoll>,
    dn: Seq<Seq<char>>,
    j: int,
    now: i128,
)
    requires
        poll_names_unique(bl),
        dn == due_names(bl, now),
        0 <= j < dn.len(),
        cur.len() == bl.len(),
        forall|m: int|
            0 <= m < bl.len() ==> #[trigger] poll_tuples(cur)[m] == marked_tuple(
                bl,
                dn.take(j),
                m,
                now,
            ),
        poll_index(cur, dn[j]) < cur.len() ==> poll_tuples(after) == poll_tuples(cur).update(
            poll_index(cur, dn[j]),
            running_tuple(cur[poll_index(cur, dn[j])]),
        ),
        poll_index(cur, dn[j]) == cur.len() ==> poll_tuples(after) == poll_tuples(cur),
    ensures
        after.len() == bl.len(),
        forall|m: int|
            0 <= m < bl.len() ==> #[trigger] poll_tuples(after)[m] == marked_tuple(
                bl,
                dn.take(j + 1),
                m,
                now,
            ),
{
    let x = dn[j];
    assert(dn.take(j + 1) =~= dn.take(j).push(x));
    crate::app_polls::lemma_due_names_contains(bl, now, x);
    assert(dn.contains(x));
    let k = choose|k: int| 0 <= k < bl.len() && (#[trigger] bl[k]).repo_name@ == x && is_due(bl[k], now);
    crate::app_polls::lemma_poll_index_bounds(cur, x);
    let idx = poll_index(cur, x);
    assert(after.len() == poll_tuples(after).len());
    assert(cur.len() == poll_tuples(cur).len());
    assert forall|m: int| 0 <= m < bl.len() implies (#[trigger] cur[m]).repo_name@ == bl[m].repo_name@
        && cur[m].started_at == bl[m].started_at && cur[m].next_check_at == bl[m].next_check_at
        && cur[m].after_auto_update == bl[m].after_auto_update by {
        assert(poll_tuples(cur)[m] == marked_tuple(bl, dn.take(j), m, now));
        assert(poll_tuples(bl)[m] == (
            bl[m].repo_name@,
            bl[m].started_at,
            bl[m].next_check_at,
            bl[m].in_flight,
            bl[m].after_auto_update,
        ));
    }
    assert(cur[k].repo_name@ == x);
    assert(idx <= k);
    assert(idx == k);
    assert forall|m: int| 0 <= m < bl.len() implies #[trigger] poll_tuples(after)[m]
        == marked_tuple(bl, dn.take(j + 1), m, now) by {
        assert(poll_tuples(cur)[m] == marked_tuple(bl, dn.take(j), m, now));
        let y = bl[m].repo_name@;
        if m != k {
            assert(bl[m].repo_name@ != bl[k].repo_name@);
            assert(poll_tuples(after)[m] == poll_tuples(cur)[m]);
            let t1 = dn.take(j + 1);
            let t0 = dn.take(j);
            if t1.contains(y) {
                let q = choose|q: int| 0 <= q < t1.len() && #[trigger] t1[q] == y;
                assert(q < j);
                assert(t0[q] == y);
            }
            if t0.contains(y) {
                let q = choose|q: int| 0 <= q < t0.len() && #[trigger] t0[q] == y;
                assert(t1[q] == y);
            }
        } else {
            assert(dn.take(j + 1)[j] == x);
            assert(dn.take(j + 1).contains(y));
            assert(poll_tuples(after)[m] == running_tuple(cur[k]));
        }
    }
}

impl App {
    /// At `now`: ends the polls that timed out (logging them) and marks the
    /// ones that are due as running; their repositories are to be checked.
    pub fn start_due_cargo_hash_polls_at(&mut self, now: i128) -> (r: DuePollActions)
        ensures
            ({
                let polls = old(self).cargo_hash_polls@;
                let expired = expired_polls(polls, now);
                let left = polls_without_all(polls, expired.map_values(|e: (Seq<char>, bool)| e.0));
                let logs = expiry_logs(expired, old(self).repos@);
                &&& r.log_lines@.map_values(|s: String| s@) == logs.0
                &&& log_entries_view(r.auto_update_logs@) == logs.1
                &&& r.to_check@.map_values(|s: String| s@) == due_names(left, now)
                &&& final(self).cargo_hash_polls@.len() == left.len()
                &&& forall|k: int|
                    0 <= k < left.len() ==> poll_plan(
                        #[trigger] poll_tuples(final(self).cargo_hash_polls@)[k],
                    ) == poll_plan(poll_tuples(left)[k])
                &&& poll_names_unique(left) ==> forall|k: int|
                    0 <= k < left.len() ==> #[trigger] poll_tuples(final(self).cargo_hash_polls@)[k]
                        == if is_due(left[k], now) {
                        running_tuple(left[k])
                    } else {
                        poll_tuples(left)[k]
                    }
            }),
            *final(self) == (App { cargo_hash_polls: final(self).cargo_hash_polls, ..*old(self) }),
    {
        let ghost polls0 = self.cargo_hash_polls@;
        let expired = self.take_expired_cargo_hash_polls_at(now);
        let ghost ev = expired@.map_values(|e: ExpiredCargoHashPoll| (e.repo_name@, e.after_auto_update));
        let mut log_lines: Vec<String> = Vec::new();
        let mut auto_update_logs: Vec<(String, Vec<String>)> = Vec::new();
        let mut k: usize = 0;
        while k < expired.len()
            invariant
                k <= expired@.len(),
                ev == expired@.map_values(|e: ExpiredCargoHashPoll| (e.repo_name@, e.after_auto_update)),
                self.repos@ == old(self).repos@,
                log_lines@.map_values(|s: String| s@) == expiry_logs(ev.take(k as int), self.repos@).0,
                log_entries_view(auto_update_logs@) == expiry_logs(ev.take(k as int), self.repos@).1,
            decreases expired@.len() - k,
        {
            proof {
                assert(ev.take(k + 1).drop_last() =~= ev.take(k as int));
                assert(ev.take(k + 1).last() == ev[k as int]);
            }
            let e = &expired[k];
            match find_first_named(&self.repos, e.repo_name.as_str()) {
                Some(i) => {
                    let repo = &self.repos[i];
                    let mut l = String::new();
                    push_str(&mut l, "cargo hash polling timed out after 30m: ");
                    push_str(&mut l, repo.full_name.as_str());
                    let ghost lb = log_lines@;
                    log_lines.push(l);
                    assert(log_lines@.map_values(|s: String| s@) =~= lb.map_values(|s: String| s@).push(
                        timed_out_text(repo.full_name@),
                    ));
                    if e.after_auto_update {
                        let h = format_installed_hash_check_log(
                            repo.cargo_installed_hash.as_str(),
                            repo.cargo_remote_hash.as_str(),
                        );
                        let msgs = lines_of_strs(
                            h.as_str(),
                            "30分経過しても remote hash と一致しなかったため、この repo の polling を終了します。",
                        );
                        let ghost ab = auto_update_logs@;
                        auto_update_logs.push((repo.full_name.clone(), msgs));
                        assert(log_entries_view(auto_update_logs@) =~= log_entries_view(ab).push(
                            (
                                repo.full_name@,
                                timeout_messages(repo.cargo_installed_hash@, repo.cargo_remote_hash@),
                            ),
                        ));
                    }
                },
                None => {},
            }
            k += 1;
        }
        assert(ev.take(expired@.len() as int) =~= ev);
        let due = self.due_cargo_hash_polls_at(now);
        let ghost left = self.cargo_hash_polls@;
        proof {
            let spec_left = polls_without_all(
                polls0,
                expired_polls(polls0, now).map_values(|e: (Seq<char>, bool)| e.0),
            );
            lemma_due_names_congruent(left, spec_left, now);
            assert(left.len() == poll_tuples(left).len());
            assert(spec_left.len() == poll_tuples(spec_left).len());
        }
        let ghost dn = due_names(left, now);
        proof {
            assert(dn.take(0) =~= Seq::<Seq<char>>::empty());
            assert forall|m: int| 0 <= m < left.len() implies #[trigger] poll_tuples(
                self.cargo_hash_polls@,
            )[m] == marked_tuple(left, dn.take(0), m, now) by {}
        }
        let mut j: usize = 0;
        while j < due.len()
            invariant
                j <= due@.len(),
                due@.map_values(|s: String| s@) == dn,
                dn == due_names(left, now),
                *self == (App { cargo_hash_polls: self.cargo_hash_polls, ..*old(self) }),
                self.cargo_hash_polls@.len() == left.len(),
                poll_names_unique(left) ==> forall|m: int|
                    0 <= m < left.len() ==> #[trigger] poll_tuples(self.cargo_hash_polls@)[m]
                        == marked_tuple(left, dn.take(j as int), m, now),
                forall|m: int|
                    0 <= m < left.len() ==> poll_plan(#[trigger] poll_tuples(self.cargo_hash_polls@)[m])
                        == poll_plan(poll_tuples(left)[m]),
            decreases due@.len() - j,
        {
            let ghost cur = self.cargo_hash_polls@;
            self.mark_cargo_hash_poll_in_flight(due[j].as_str());
            proof {
                assert(dn[j as int] == due@[j as int]@);
                if poll_names_unique(left) {
                    lemma_mark_step(left, cur, self.cargo_hash_polls@, dn, j as int, now);
                }
                crate::app_polls::lemma_poll_index_bounds(cur, due@[j as int]@);
                let idx = poll_index(cur, due@[j as int]@);
                assert(poll_tuples(cur).len() == cur.len());
                assert(self.cargo_hash_polls@.len() == poll_tuples(self.cargo_hash_polls@).len());
                assert forall|m: int| 0 <= m < left.len() implies poll_plan(
                    #[trigger] poll_tuples(self.cargo_hash_polls@)[m],
                ) == poll_plan(poll_tuples(left)[m]) by {
                    assert(poll_plan(poll_tuples(cur)[m]) == poll_plan(poll_tuples(left)[m]));
                    if idx < cur.len() && m == idx {
                        assert(poll_tuples(cur)[m] == (
                            cur[m].repo_name@,
                            cur[m].started_at,
                            cur[m].next_check_at,
                            cur[m].in_flight,
                            cur[m].after_auto_update,
                        ));
                    }
                }
            }
            j += 1;
        }
        proof {
            let sl = polls_without_all(
                polls0,
                expired_polls(polls0, now).map_values(|e: (Seq<char>, bool)| e.0),
            );
            assert(left.len() == poll_tuples(left).len());
            assert(sl.len() == poll_tuples(sl).len());
            assert forall|m: int| 0 <= m < left.len() implies (#[trigger] left[m]).repo_name@
                == sl[m].repo_name@ && left[m].started_at == sl[m].started_at
                && left[m].next_check_at == sl[m].next_check_at && left[m].in_flight
                == sl[m].in_flight && left[m].after_auto_update == sl[m].after_auto_update by {
                assert(poll_tuples(left)[m] == poll_tuples(sl)[m]);
            }
            if poll_names_unique(sl) {
                assert forall|a: int, b: int|
                    0 <= a < left.len() && 0 <= b < left.len() && a != b implies #[trigger] left[a].repo_name@
                    != #[trigger] left[b].repo_name@ by {
                    assert(sl[a].repo_name@ != sl[b].repo_name@);
                }
                assert(poll_names_unique(left));
                assert(dn.take(dn.len() as int) =~= dn);
                assert forall|m: int| 0 <= m < sl.len() implies #[trigger] poll_tuples(
                    self.cargo_hash_polls@,
                )[m] == if is_due(sl[m], now) {
                    running_tuple(sl[m])
                } else {
                    poll_tuples(sl)[m]
                } by {
                    assert(poll_tuples(self.cargo_hash_polls@)[m] == marked_tuple(left, dn, m, now));
                    crate::app_polls::lemma_due_names_contains(left, now, left[m].repo_name@);
                    assert(poll_tuples(left)[m] == poll_tuples(sl)[m]);
                }
            }
        }
        DuePollActions { log_lines, auto_update_logs, to_check: due }
    }
}

/// The lines of the auto-update log written when an update was launched
/// (or failed to launch) for a repository whose install was still old.
pub open spec fn launch_log_lines(
    installed: Seq<char>,
    remote: Seq<char>,
    launch_log: Seq<char>,
    launched: bool,
) -> Seq<Seq<char>> {
    seq![
        "この repo は cargo check で old でしたので、recheck でも old のままか確認しました。"@,
        hash_check_text(installed, remote),
        "update 実行: "@ + launch_log,
        if launched {
            "1分後から、1分間隔で installed hash を確認し、remote hash と一致したかをこのログに追記します。"@
        } else {
            "update の起動に失敗したため、1分後の installed hash 確認は開始しません。"@
        },
    ]
}

impl App {
    /// Records the launch of an automatic update for `request`: a launched
    /// update starts polling its installed hash (first check one interval
    /// after `now`).  Returns the lines for the auto-update log.
    pub fn record_auto_update_launch_at(
        &mut self,
        request: &AutoUpdateLaunchRequest,
        launched: bool,
        launch_log: &str,
        now: i128,
    ) -> (r: Vec<String>)
        requires
            launched ==> now + CARGO_HASH_POLL_INTERVAL <= i128::MAX,
        ensures
            r@.map_values(|l: String| l@) == launch_log_lines(
                request.installed_hash@,
                request.remote_hash@,
                launch_log@,
                launched,
            ),
            launched ==> poll_tuples(final(self).cargo_hash_polls@) == polls_after_start(
                old(self).cargo_hash_polls@,
                request.name@,
                now,
                true,
            ) && *final(self) == (App { cargo_hash_polls: final(self).cargo_hash_polls, ..*old(self) }),
            !launched ==> *final(self) == *old(self),
    {
        let mut lines: Vec<String> = Vec::new();
        let mut first = String::new();
        push_str(&mut first, "この repo は cargo check で old でしたので、recheck でも old のままか確認しました。");
        lines.push(first);
        lines.push(
            format_installed_hash_check_log(
                request.installed_hash.as_str(),
                request.remote_hash.as_str(),
            ),
        );
        let mut run = String::new();
        push_str(&mut run, "update 実行: ");
        push_str(&mut run, launch_log);
        lines.push(run);
        let mut last = String::new();
        if launched {
            push_str(&mut last, "1分後から、1分間隔で installed hash を確認し、remote hash と一致したかをこのログに追記します。");
            self.start_auto_update_cargo_hash_polling_at(request.name.as_str(), now);
        } else {
            push_str(&mut last, "update の起動に失敗したため、1分後の installed hash 確認は開始しません。");
        }
        lines.push(last);
        assert(lines@.map_values(|l: String| l@) =~= launch_log_lines(
            request.installed_hash@,
            request.remote_hash@,
            launch_log@,
            launched,
        ));
        lines
    }
}

} // verus!
