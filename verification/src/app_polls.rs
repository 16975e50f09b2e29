//! Polling of installed commit hashes after an update was started.
use vstd::prelude::*;

use crate::app::App;
use crate::text::str_eq;

verus! {

/// Time between two checks of one repository: one minute, in nanoseconds.
pub const CARGO_HASH_POLL_INTERVAL: i128 = 60_000_000_000;

/// Time after which polling of one repository gives up: thirty minutes, in
/// nanoseconds.
pub const CARGO_HASH_POLL_TIMEOUT: i128 = 1_800_000_000_000;

/// One repository whose installed hash is being watched.  Times are
/// nanoseconds since the Unix epoch (negative before it).
pub struct CargoHashPoll {
    pub repo_name: String,
    pub started_at: i128,
    pub next_check_at: i128,
    pub in_flight: bool,
    pub after_auto_update: bool,
}

/// A poll that timed out.
pub struct ExpiredCargoHashPoll {
    pub repo_name: String,
    pub after_auto_update: bool,
}

/// Index of the first poll for `name`, or `polls.len()`.
pub open spec fn poll_index(polls: Seq<CargoHashPoll>, name: Seq<char>) -> int
    decreases polls.len(),
{
    if polls.len() == 0 {
        0
    } else if polls[0].repo_name@ == name {
        0
    } else {
        1 + poll_index(polls.drop_first(), name)
    }
}

/// Time elapsed from `start` to `now`, zero when `now` is earlier.
pub open spec fn elapsed(now: i128, start: i128) -> int {
    if now >= start {
        now - start
    } else {
        0
    }
}

/// Whether polling started at `start` has run out of time at `now`.
fn timed_out(now: i128, start: i128) -> (r: bool)
    ensures
        r == (elapsed(now, start) >= CARGO_HASH_POLL_TIMEOUT),
{
    now >= start && now >= i128::MIN + CARGO_HASH_POLL_TIMEOUT && now - CARGO_HASH_POLL_TIMEOUT
        >= start
}

/// The poll is due: not running and its time has come.
pub open spec fn is_due(p: CargoHashPoll, now: i128) -> bool {
    !p.in_flight && p.next_check_at <= now
}

/// The poll has run out of time.
pub open spec fn is_expired(p: CargoHashPoll, now: i128) -> bool {
    elapsed(now, p.started_at) >= CARGO_HASH_POLL_TIMEOUT
}

/// Names of the due polls, in order.
pub open spec fn due_names(polls: Seq<CargoHashPoll>, now: i128) -> Seq<Seq<char>>
    decreases polls.len(),
{
    if polls.len() == 0 {
        seq![]
    } else {
        let prev = due_names(polls.drop_last(), now);
        if is_due(polls.last(), now) {
            prev.push(polls.last().repo_name@)
        } else {
            prev
        }
    }
}

/// The expired polls, in order.
pub open spec fn expired_polls(polls: Seq<CargoHashPoll>, now: i128) -> Seq<(Seq<char>, bool)>
    decreases polls.len(),
{
    if polls.len() == 0 {
        seq![]
    } else {
        let prev = expired_polls(polls.drop_last(), now);
        if is_expired(polls.last(), now) {
            prev.push((polls.last().repo_name@, polls.last().after_auto_update))
        } else {
            prev
        }
    }
}

/// The polls without those for `name`.
pub open spec fn polls_without(polls: Seq<CargoHashPoll>, name: Seq<char>) -> Seq<CargoHashPoll>
    decreases polls.len(),
{
    if polls.len() == 0 {
        seq![]
    } else {
        let prev = polls_without(polls.drop_last(), name);
        if polls.last().repo_name@ == name {
            prev
        } else {
            prev.push(polls.last())
        }
    }
}

/// The polls without those whose name is among `names`, removed one name
/// after another.
pub open spec fn polls_without_all(polls: Seq<CargoHashPoll>, names: Seq<Seq<char>>) -> Seq<
    CargoHashPoll,
>
    decreases names.len(),
{
    if names.len() == 0 {
        polls
    } else {
        polls_without(polls_without_all(polls, names.drop_last()), names.last())
    }
}

/// The polls after (re)starting polling of `name` at `now`.
pub open spec fn polls_after_start(
    polls: Seq<CargoHashPoll>,
    name: Seq<char>,
    now: i128,
    after_auto_update: bool,
) -> Seq<(Seq<char>, i128, i128, bool, bool)>
    recommends
        now + CARGO_HASH_POLL_INTERVAL <= i128::MAX,
{
    let i = poll_index(polls, name);
    let next = (now + CARGO_HASH_POLL_INTERVAL) as i128;
    if i < polls.len() {
        poll_tuples(polls).update(
            i,
            (name, now, next, false, polls[i].after_auto_update || after_auto_update),
        )
    } else {
        poll_tuples(polls).push((name, now, next, false, after_auto_update))
    }
}

/// The values held by the polls.
pub open spec fn poll_tuples(polls: Seq<CargoHashPoll>) -> Seq<(Seq<char>, i128, i128, bool, bool)> {
    polls.map_values(
        |p: CargoHashPoll|
            (p.repo_name@, p.started_at, p.next_check_at, p.in_flight, p.after_auto_update),
    )
}

/// The values of a poll once its check is running.
pub open spec fn running_tuple(p: CargoHashPoll) -> (Seq<char>, i128, i128, bool, bool) {
    (p.repo_name@, p.started_at, p.next_check_at, true, p.after_auto_update)
}

pub proof fn lemma_poll_index_bounds(polls: Seq<CargoHashPoll>, name: Seq<char>)
    ensures
        0 <= poll_index(polls, name) <= polls.len(),
        poll_index(polls, name) < polls.len() ==> polls[poll_index(polls, name)].repo_name@
            == name,
        forall|k: int|
            0 <= k < poll_index(polls, name) ==> (#[trigger] polls[k]).repo_name@ != name,
    decreases polls.len(),
{
    if polls.len() > 0 && polls[0].repo_name@ != name {
        lemma_poll_index_bounds(polls.drop_first(), name);
        assert forall|k: int| 0 <= k < poll_index(polls, name) implies (
        #[trigger] polls[k]).repo_name@ != name by {
            if k > 0 {
                assert(polls[k] == polls.drop_first()[k - 1]);
            }
        }
    }
}

/// Finds the first poll for `name`.
fn find_poll(polls: &Vec<CargoHashPoll>, name: &str) -> (r: usize)
    ensures
        r as int == poll_index(polls@, name@),
{
    proof {
        lemma_poll_index_bounds(polls@, name@);
    }
    let mut i: usize = 0;
    while i < polls.len()
        invariant
            i <= polls@.len(),
            forall|k: int| 0 <= k < i ==> (#[trigger] polls@[k]).repo_name@ != name@,
        decreases polls@.len() - i,
    {
        if str_eq(polls[i].repo_name.as_str(), name) {
            proof {
                lemma_poll_index_at(polls@, name@, i as int);
            }
            return i;
        }
        i += 1;
    }
    proof {
        lemma_poll_index_at(polls@, name@, i as int);
    }
    i
}

pub proof fn lemma_poll_index_at(polls: Seq<CargoHashPoll>, name: Seq<char>, n: int)
    requires
        0 <= n <= polls.len(),
        n < polls.len() ==> polls[n].repo_name@ == name,
        forall|k: int| 0 <= k < n ==> (#[trigger] polls[k]).repo_name@ != name,
    ensures
        poll_index(polls, name) == n,
    decreases n,
{
    if n > 0 {
        assert(polls[0].repo_name@ != name);
        assert forall|k: int| 0 <= k < n - 1 implies (#[trigger] polls.drop_first()[k]).repo_name@
            != name by {
            assert(polls.drop_first()[k] == polls[k + 1]);
        }
        lemma_poll_index_at(polls.drop_first(), name, n - 1);
    }
}

/// Removes every poll for `name`.
fn remove_polls(polls: &mut Vec<CargoHashPoll>, name: &str)
    ensures
        poll_tuples(final(polls)@) == poll_tuples(polls_without(old(polls)@, name@)),
{
    let mut kept: Vec<CargoHashPoll> = Vec::new();
    let mut old_polls: Vec<CargoHashPoll> = Vec::new();
    std::mem::swap(&mut old_polls, polls);
    let ghost orig = old_polls@;
    let mut i: usize = 0;
    while i < old_polls.len()
        invariant
            i <= old_polls@.len(),
            old_polls@ == orig,
            poll_tuples(kept@) == poll_tuples(polls_without(orig.take(i as int), name@)),
        decreases old_polls@.len() - i,
    {
        assert(orig.take(i + 1).drop_last() =~= orig.take(i as int));
        let p = &old_polls[i];
        if !str_eq(p.repo_name.as_str(), name) {
            let ghost before = kept@;
            kept.push(
                CargoHashPoll {
                    repo_name: p.repo_name.clone(),
                    started_at: p.started_at,
                    next_check_at: p.next_check_at,
                    in_flight: p.in_flight,
                    after_auto_update: p.after_auto_update,
                },
            );
            assert(poll_tuples(kept@) =~= poll_tuples(before).push(
                (p.repo_name@, p.started_at, p.next_check_at, p.in_flight, p.after_auto_update),
            ));
            assert(poll_tuples(polls_without(orig.take(i + 1), name@)) =~= poll_tuples(
                polls_without(orig.take(i as int), name@),
            ).push(
                (p.repo_name@, p.started_at, p.next_check_at, p.in_flight, p.after_auto_update),
            ));
        }
        i += 1;
    }
    assert(orig.take(orig.len() as int) =~= orig);
    *polls = kept;
}

impl App {
    /// Starts (or restarts) polling `repo_name` now; the first check is one
    /// interval later.
    pub fn start_cargo_hash_polling_at(&mut self, repo_name: &str, now: i128)
        requires
            now + CARGO_HASH_POLL_INTERVAL <= i128::MAX,
        ensures
            poll_tuples(final(self).cargo_hash_polls@) == polls_after_start(
                old(self).cargo_hash_polls@,
                repo_name@,
                now,
                false,
            ),
            *final(self) == (App { cargo_hash_polls: final(self).cargo_hash_polls, ..*old(self) }),
    {
        self.start_cargo_hash_polling_with_source_at(repo_name, now, false);
    }

    /// Starts polling after an automatic update was launched.
    pub fn start_auto_update_cargo_hash_polling_at(&mut self, repo_name: &str, now: i128)
        requires
            now + CARGO_HASH_POLL_INTERVAL <= i128::MAX,
        ensures
            poll_tuples(final(self).cargo_hash_polls@) == polls_after_start(
                old(self).cargo_hash_polls@,
                repo_name@,
                now,
                true,
            ),
            *final(self) == (App { cargo_hash_polls: final(self).cargo_hash_polls, ..*old(self) }),
    {
        self.start_cargo_hash_polling_with_source_at(repo_name, now, true);
    }

    fn start_cargo_hash_polling_with_source_at(
        &mut self,
        repo_name: &str,
        now: i128,
        after_auto_update: bool,
    )
        requires
            now + CARGO_HASH_POLL_INTERVAL <= i128::MAX,
        ensures
            poll_tuples(final(self).cargo_hash_polls@) == polls_after_start(
                old(self).cargo_hash_polls@,
                repo_name@,
                now,
                after_auto_update,
            ),
            *final(self) == (App { cargo_hash_polls: final(self).cargo_hash_polls, ..*old(self) }),
    {
        let next_check_at = now + CARGO_HASH_POLL_INTERVAL;
        let i = find_poll(&self.cargo_hash_polls, repo_name);
        proof {
            lemma_poll_index_bounds(self.cargo_hash_polls@, repo_name@);
        }
        let ghost before = self.cargo_hash_polls@;
        if i < self.cargo_hash_polls.len() {
            let prev_flag = self.cargo_hash_polls[i].after_auto_update;
            let name = self.cargo_hash_polls[i].repo_name.clone();
            self.cargo_hash_polls.set(
                i,
                CargoHashPoll {
                    repo_name: name,
                    started_at: now,
                    next_check_at,
                    in_flight: false,
                    after_auto_update: prev_flag || after_auto_update,
                },
            );
            assert(poll_tuples(self.cargo_hash_polls@) =~= polls_after_start(
                before,
                repo_name@,
                now,
                after_auto_update,
            ));
        } else {
            self.cargo_hash_polls.push(
                CargoHashPoll {
                    repo_name: repo_name.to_owned(),
                    started_at: now,
                    next_check_at,
                    in_flight: false,
                    after_auto_update,
                },
            );
            assert(poll_tuples(self.cargo_hash_polls@) =~= polls_after_start(
                before,
                repo_name@,
                now,
                after_auto_update,
            ));
        }
    }

    /// Names of the polls whose next check is due at `now`.
    pub fn due_cargo_hash_polls_at(&self, now: i128) -> (r: Vec<String>)
        ensures
            r@.map_values(|s: String| s@) == due_names(self.cargo_hash_polls@, now),
    {
        let mut r: Vec<String> = Vec::new();
        let mut i: usize = 0;
        while i < self.cargo_hash_polls.len()
            invariant
                i <= self.cargo_hash_polls@.len(),
                r@.map_values(|s: String| s@) == due_names(
                    self.cargo_hash_polls@.take(i as int),
                    now,
                ),
            decreases self.cargo_hash_polls@.len() - i,
        {
            let ghost polls = self.cargo_hash_polls@;
            assert(polls.take(i + 1).drop_last() =~= polls.take(i as int));
            let p = &self.cargo_hash_polls[i];
            if !p.in_flight && p.next_check_at <= now {
                let ghost before = r@;
                r.push(p.repo_name.clone());
                assert(r@.map_values(|s: String| s@) =~= before.map_values(|s: String| s@).push(
                    p.repo_name@,
                ));
            }
            i += 1;
        }
        assert(self.cargo_hash_polls@.take(self.cargo_hash_polls@.len() as int)
            =~= self.cargo_hash_polls@);
        r
    }

    /// Marks the poll for `repo_name` as running.
    pub fn mark_cargo_hash_poll_in_flight(&mut self, repo_name: &str)
        ensures
            poll_index(old(self).cargo_hash_polls@, repo_name@) < old(self).cargo_hash_polls@.len()
                ==> poll_tuples(final(self).cargo_hash_polls@) == poll_tuples(
                old(self).cargo_hash_polls@,
            ).update(
                poll_index(old(self).cargo_hash_polls@, repo_name@),
                running_tuple(
                    old(self).cargo_hash_polls@[poll_index(old(self).cargo_hash_polls@, repo_name@)],
                ),
            ),
            poll_index(old(self).cargo_hash_polls@, repo_name@) == old(
                self,
            ).cargo_hash_polls@.len() ==> poll_tuples(final(self).cargo_hash_polls@)
                == poll_tuples(old(self).cargo_hash_polls@),
            *final(self) == (App { cargo_hash_polls: final(self).cargo_hash_polls, ..*old(self) }),
    {
        let i = find_poll(&self.cargo_hash_polls, repo_name);
        proof {
            lemma_poll_index_bounds(self.cargo_hash_polls@, repo_name@);
        }
        let ghost before = self.cargo_hash_polls@;
        if i < self.cargo_hash_polls.len() {
            let p = &self.cargo_hash_polls[i];
            let updated = CargoHashPoll {
                repo_name: p.repo_name.clone(),
                started_at: p.started_at,
                next_check_at: p.next_check_at,
                in_flight: true,
                after_auto_update: p.after_auto_update,
            };
            self.cargo_hash_polls.set(i, updated);
            assert(poll_tuples(self.cargo_hash_polls@) =~= poll_tuples(before).update(
                i as int,
                running_tuple(before[i as int]),
            ));
        }
    }

    /// Stops polling `repo_name`.
    pub fn stop_cargo_hash_polling(&mut self, repo_name: &str)
        ensures
            poll_tuples(final(self).cargo_hash_polls@) == poll_tuples(
                polls_without(old(self).cargo_hash_polls@, repo_name@),
            ),
            *final(self) == (App { cargo_hash_polls: final(self).cargo_hash_polls, ..*old(self) }),
    {
        remove_polls(&mut self.cargo_hash_polls, repo_name);
    }

    /// Records that a check of `repo_name` finished at `now`: the poll ends
    /// (and `true` is returned) once it has run for the timeout, else it is
    /// rescheduled one interval later.
    pub fn finish_cargo_hash_poll_attempt_at(&mut self, repo_name: &str, now: i128) -> (r: bool)
        requires
            now + CARGO_HASH_POLL_INTERVAL <= i128::MAX,
        ensures
            ({
                let polls = old(self).cargo_hash_polls@;
                let i = poll_index(polls, repo_name@);
                if i == polls.len() {
                    !r && poll_tuples(final(self).cargo_hash_polls@) == poll_tuples(polls)
                } else if is_expired(polls[i], now) {
                    r && poll_tuples(final(self).cargo_hash_polls@) == poll_tuples(
                        polls.remove(i),
                    )
                } else {
                    !r && poll_tuples(final(self).cargo_hash_polls@) == poll_tuples(polls).update(
                        i,
                        (
                            polls[i].repo_name@,
                            polls[i].started_at,
                            (now + CARGO_HASH_POLL_INTERVAL) as i128,
                            false,
                            polls[i].after_auto_update,
                        ),
                    )
                }
            }),
            *final(self) == (App { cargo_hash_polls: final(self).cargo_hash_polls, ..*old(self) }),
    {
        let i = find_poll(&self.cargo_hash_polls, repo_name);
        proof {
            lemma_poll_index_bounds(self.cargo_hash_polls@, repo_name@);
        }
        let ghost before = self.cargo_hash_polls@;
        if i >= self.cargo_hash_polls.len() {
            return false;
        }
        let started = self.cargo_hash_polls[i].started_at;
        if timed_out(now, started) {
            self.cargo_hash_polls.remove(i);
            assert(poll_tuples(self.cargo_hash_polls@) =~= poll_tuples(before.remove(i as int)));
            true
        } else {
            let p = &self.cargo_hash_polls[i];
            let updated = CargoHashPoll {
                repo_name: p.repo_name.clone(),
                started_at: p.started_at,
                next_check_at: now + CARGO_HASH_POLL_INTERVAL,
                in_flight: false,
                after_auto_update: p.after_auto_update,
            };
            self.cargo_hash_polls.set(i, updated);
            assert(poll_tuples(self.cargo_hash_polls@) =~= poll_tuples(before).update(
                i as int,
                (
                    before[i as int].repo_name@,
                    before[i as int].started_at,
                    (now + CARGO_HASH_POLL_INTERVAL) as i128,
                    false,
                    before[i as int].after_auto_update,
                ),
            ));
            false
        }
    }

    /// Removes the polls that have run for the timeout at `now` and returns
    /// their names.
    pub fn expire_cargo_hash_polls_at(&mut self, now: i128) -> (r: Vec<String>)
        ensures
            r@.map_values(|s: String| s@) == expired_polls(old(self).cargo_hash_polls@, now).map_values(
                |e: (Seq<char>, bool)| e.0,
            ),
            poll_tuples(final(self).cargo_hash_polls@) == poll_tuples(
                polls_without_all(
                    old(self).cargo_hash_polls@,
                    expired_polls(old(self).cargo_hash_polls@, now).map_values(
                        |e: (Seq<char>, bool)| e.0,
                    ),
                ),
            ),
            *final(self) == (App { cargo_hash_polls: final(self).cargo_hash_polls, ..*old(self) }),
    {
        let expired = self.take_expired_cargo_hash_polls_at(now);
        let mut names: Vec<String> = Vec::new();
        let mut i: usize = 0;
        while i < expired.len()
            invariant
                i <= expired@.len(),
                names@.len() == i,
                names@.map_values(|s: String| s@) == expired@.take(i as int).map_values(
                    |e: ExpiredCargoHashPoll| e.repo_name@,
                ),
            decreases expired@.len() - i,
        {
            let ghost before = names@;
            names.push(expired[i].repo_name.clone());
            assert(expired@.take(i + 1) =~= expired@.take(i as int).push(expired@[i as int]));
            assert(names@ =~= before.push(names@[i as int]));
            assert(names@.map_values(|s: String| s@) =~= before.map_values(|s: String| s@).push(
                expired@[i as int].repo_name@,
            ));
            assert(expired@.take(i + 1).map_values(|e: ExpiredCargoHashPoll| e.repo_name@)
                =~= expired@.take(i as int).map_values(|e: ExpiredCargoHashPoll| e.repo_name@).push(
                expired@[i as int].repo_name@,
            ));
            i += 1;
        }
        assert(expired@.take(expired@.len() as int) =~= expired@);
        assert(names@.map_values(|s: String| s@) =~= expired_polls(
            old(self).cargo_hash_polls@,
            now,
        ).map_values(|e: (Seq<char>, bool)| e.0));
        names
    }

    /// Removes the polls that have run for the timeout at `now` and returns them.
    pub fn take_expired_cargo_hash_polls_at(&mut self, now: i128) -> (r: Vec<ExpiredCargoHashPoll>)
        ensures
            r@.map_values(|e: ExpiredCargoHashPoll| (e.repo_name@, e.after_auto_update))
                == expired_polls(old(self).cargo_hash_polls@, now),
            poll_tuples(final(self).cargo_hash_polls@) == poll_tuples(
                polls_without_all(
                    old(self).cargo_hash_polls@,
                    expired_polls(old(self).cargo_hash_polls@, now).map_values(
                        |e: (Seq<char>, bool)| e.0,
                    ),
                ),
            ),
            *final(self) == (App { cargo_hash_polls: final(self).cargo_hash_polls, ..*old(self) }),
    {
        let ghost polls = self.cargo_hash_polls@;
        let mut expired: Vec<ExpiredCargoHashPoll> = Vec::new();
        let mut i: usize = 0;
        while i < self.cargo_hash_polls.len()
            invariant
                i <= polls.len(),
                self.cargo_hash_polls@ == polls,
                *self == *old(self),
                expired@.map_values(|e: ExpiredCargoHashPoll| (e.repo_name@, e.after_auto_update))
                    == expired_polls(polls.take(i as int), now),
            decreases polls.len() - i,
        {
            assert(polls.take(i + 1).drop_last() =~= polls.take(i as int));
            let p = &self.cargo_hash_polls[i];
            if timed_out(now, p.started_at) {
                let ghost before = expired@;
                expired.push(
                    ExpiredCargoHashPoll {
                        repo_name: p.repo_name.clone(),
                        after_auto_update: p.after_auto_update,
                    },
                );
                assert(expired@.map_values(
                    |e: ExpiredCargoHashPoll| (e.repo_name@, e.after_auto_update),
                ) =~= before.map_values(
                    |e: ExpiredCargoHashPoll| (e.repo_name@, e.after_auto_update),
                ).push((p.repo_name@, p.after_auto_update)));
            }
            i += 1;
        }
        assert(polls.take(polls.len() as int) =~= polls);
        let ghost names = expired_polls(polls, now).map_values(|e: (Seq<char>, bool)| e.0);
        let mut k: usize = 0;
        while k < expired.len()
            invariant
                k <= expired@.len(),
                *self == (App { cargo_hash_polls: self.cargo_hash_polls, ..*old(self) }),
                expired@.map_values(|e: ExpiredCargoHashPoll| (e.repo_name@, e.after_auto_update))
                    == expired_polls(polls, now),
                names == expired_polls(polls, now).map_values(|e: (Seq<char>, bool)| e.0),
                poll_tuples(self.cargo_hash_polls@) == poll_tuples(
                    polls_without_all(polls, names.take(k as int)),
                ),
            decreases expired@.len() - k,
        {
            let ghost mid = self.cargo_hash_polls@;
            assert(names.take(k + 1).drop_last() =~= names.take(k as int));
            assert(names[k as int] == expired@[k as int].repo_name@);
            self.stop_cargo_hash_polling(expired[k].repo_name.as_str());
            proof {
                lemma_polls_without_congruent(
                    mid,
                    polls_without_all(polls, names.take(k as int)),
                    names[k as int],
                );
            }
            k += 1;
        }
        assert(names.take(names.len() as int) =~= names);
        expired
    }

    /// Number of repositories being polled.
    pub fn active_cargo_hash_poll_count(&self) -> (r: usize)
        ensures
            r == self.cargo_hash_polls@.len(),
    {
        self.cargo_hash_polls.len()
    }

    /// Whether the poll for `repo_name` follows an automatic update.
    pub fn cargo_hash_poll_after_auto_update(&self, repo_name: &str) -> (r: bool)
        ensures
            r == (poll_index(self.cargo_hash_polls@, repo_name@) < self.cargo_hash_polls@.len()
                && self.cargo_hash_polls@[poll_index(
                self.cargo_hash_polls@,
                repo_name@,
            )].after_auto_update),
    {
        let i = find_poll(&self.cargo_hash_polls, repo_name);
        i < self.cargo_hash_polls.len() && self.cargo_hash_polls[i].after_auto_update
    }
}

/// Removing a name from lists that hold the same values gives lists that
/// hold the same values.
pub proof fn lemma_polls_without_congruent(
    a: Seq<CargoHashPoll>,
    b: Seq<CargoHashPoll>,
    name: Seq<char>,
)
    requires
        poll_tuples(a) == poll_tuples(b),
    ensures
        poll_tuples(polls_without(a, name)) == poll_tuples(polls_without(b, name)),
    decreases a.len(),
{
    assert(a.len() == poll_tuples(a).len());
    assert(b.len() == poll_tuples(b).len());
    if a.len() > 0 {
        assert(poll_tuples(a.drop_last()) =~= poll_tuples(a).drop_last());
        assert(poll_tuples(b.drop_last()) =~= poll_tuples(b).drop_last());
        lemma_polls_without_congruent(a.drop_last(), b.drop_last(), name);
        assert(poll_tuples(a)[a.len() - 1] == poll_tuples(b)[b.len() - 1]);
        let pa = polls_without(a.drop_last(), name);
        let pb = polls_without(b.drop_last(), name);
        if a.last().repo_name@ != name {
            assert(poll_tuples(pa.push(a.last())) =~= poll_tuples(pa).push(
                poll_tuples(a)[a.len() - 1],
            ));
            assert(poll_tuples(pb.push(b.last())) =~= poll_tuples(pb).push(
                poll_tuples(b)[b.len() - 1],
            ));
        }
    }
}

/// No two polls watch the same repository.
pub open spec fn poll_names_unique(polls: Seq<CargoHashPoll>) -> bool {
    forall|i: int, j: int|
        #![trigger polls[i], polls[j]]
        0 <= i < polls.len() && 0 <= j < polls.len() && i != j ==> polls[i].repo_name@
            != polls[j].repo_name@
}

/// `x` is among the due names exactly when some due poll watches it.
pub proof fn lemma_due_names_contains(ps: Seq<CargoHashPoll>, t: i128, x: Seq<char>)
    ensures
        due_names(ps, t).contains(x) <==> exists|k: int|
            0 <= k < ps.len() && (#[trigger] ps[k]).repo_name@ == x && is_due(ps[k], t),
    decreases ps.len(),
{
    if ps.len() > 0 {
        let prev = ps.drop_last();
        lemma_due_names_contains(prev, t, x);
        let last = ps.len() - 1;
        if due_names(ps, t).contains(x) {
            if due_names(prev, t).contains(x) {
                let k = choose|k: int|
                    0 <= k < prev.len() && (#[trigger] prev[k]).repo_name@ == x && is_due(prev[k], t);
                assert(ps[k] == prev[k]);
            } else {
                assert(is_due(ps[last], t));
                let d = due_names(prev, t).push(ps[last].repo_name@);
                let m = choose|m: int| 0 <= m < d.len() && d[m] == x;
                assert(m == d.len() - 1);
                assert(ps[last].repo_name@ == x);
            }
        }
        if exists|k: int| 0 <= k < ps.len() && (#[trigger] ps[k]).repo_name@ == x && is_due(ps[k], t) {
            let k = choose|k: int| 0 <= k < ps.len() && (#[trigger] ps[k]).repo_name@ == x && is_due(ps[k], t);
            if k < last {
                assert(prev[k] == ps[k]);
                assert(due_names(prev, t).contains(x));
                let m = choose|m: int| 0 <= m < due_names(prev, t).len() && due_names(prev, t)[m] == x;
                if is_due(ps[last], t) {
                    assert(due_names(ps, t)[m] == x);
                }
            } else {
                let d = due_names(prev, t).push(ps[last].repo_name@);
                assert(d[d.len() - 1] == x);
            }
        }
    }
}

/// Once polling of `name` has started at `now`, its check is due from one
/// interval later on, and not before (no two polls watch one repository).
pub proof fn law_poll_due_after_one_interval(
    polls: Seq<CargoHashPoll>,
    after: Seq<CargoHashPoll>,
    name: Seq<char>,
    now: i128,
    after_auto_update: bool,
    t: i128,
)
    requires
        now + CARGO_HASH_POLL_INTERVAL <= i128::MAX,
        poll_names_unique(polls),
        poll_tuples(after) == polls_after_start(polls, name, now, after_auto_update),
    ensures
        due_names(after, t).contains(name) <==> now + CARGO_HASH_POLL_INTERVAL <= t,
{
    lemma_poll_index_bounds(polls, name);
    lemma_due_names_contains(after, t, name);
    let i = poll_index(polls, name);
    let j = if i < polls.len() {
        i
    } else {
        polls.len() as int
    };
    assert(after.len() == poll_tuples(after).len());
    assert(poll_tuples(after)[j] == (
        after[j].repo_name@,
        after[j].started_at,
        after[j].next_check_at,
        after[j].in_flight,
        after[j].after_auto_update,
    ));
    assert(after[j].repo_name@ == name);
    assert(after[j].next_check_at == now + CARGO_HASH_POLL_INTERVAL);
    assert(!after[j].in_flight);
    assert forall|k: int| 0 <= k < after.len() && k != j implies (#[trigger] after[k]).repo_name@
        != name by {
        assert(poll_tuples(after)[k].0 == after[k].repo_name@);
        assert(poll_tuples(polls)[k].0 == polls[k].repo_name@);
        if i < polls.len() {
            assert(polls[i].repo_name@ != polls[k].repo_name@);
        }
    }
    if now + CARGO_HASH_POLL_INTERVAL <= t {
        assert(is_due(after[j], t));
    }
}

/// Starting (or restarting) a poll keeps every repository watched by one
/// poll at most.
pub proof fn law_poll_start_keeps_names_unique(
    polls: Seq<CargoHashPoll>,
    after: Seq<CargoHashPoll>,
    name: Seq<char>,
    now: i128,
    after_auto_update: bool,
)
    requires
        now + CARGO_HASH_POLL_INTERVAL <= i128::MAX,
        poll_names_unique(polls),
        poll_tuples(after) == polls_after_start(polls, name, now, after_auto_update),
    ensures
        poll_names_unique(after),
{
    lemma_poll_index_bounds(polls, name);
    let i = poll_index(polls, name);
    let j = if i < polls.len() {
        i
    } else {
        polls.len() as int
    };
    assert(after.len() == poll_tuples(after).len());
    assert forall|k: int| 0 <= k < after.len() implies (#[trigger] after[k]).repo_name@ == (if k
        == j {
        name
    } else {
        polls[k].repo_name@
    }) by {
        assert(poll_tuples(after)[k].0 == after[k].repo_name@);
        if k != j {
            assert(poll_tuples(polls)[k].0 == polls[k].repo_name@);
        }
    }
    assert forall|a: int, b: int|
        0 <= a < after.len() && 0 <= b < after.len() && a != b implies #[trigger] after[a].repo_name@
        != #[trigger] after[b].repo_name@ by {
        if a != j && b != j {
            assert(polls[a].repo_name@ != polls[b].repo_name@);
        } else if a == j {
            if i < polls.len() {
                assert(polls[i].repo_name@ != polls[b].repo_name@);
            }
        } else {
            if i < polls.len() {
                assert(polls[i].repo_name@ != polls[a].repo_name@);
            }
        }
    }
}

} // verus!
