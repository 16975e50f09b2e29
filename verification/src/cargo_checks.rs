//! What the cargo check of a repository is run with, what its outcome writes
//! back into the repository record, and what it is logged as.
use vstd::prelude::*;

use crate::bin_check::BinCheckOutcome;
use crate::cargo_install::CargoGitInstallCheck;
use crate::text::{debug_str, debug_string, push_str};
use crate::order::{SortKey, key_views, sort_indices_stable, sorted_stable};
use crate::types::{RepoInfo, same_repo};

verus! {

/// `true` / `false` as `{}` prints them.
pub open spec fn bool_text(b: bool) -> Seq<char> {
    if b {
        "true"@
    } else {
        "false"@
    }
}

/// `{:?}` of an `Option<bool>`.
pub open spec fn opt_bool_debug(o: Option<bool>) -> Seq<char> {
    match o {
        Some(true) => "Some(true)"@,
        Some(false) => "Some(false)"@,
        None => "None"@,
    }
}

/// Appends `{}` of a `bool`.
pub fn push_bool(s: &mut String, b: bool)
    ensures
        final(s)@ == old(s)@ + bool_text(b),
{
    if b {
        push_str(s, "true");
    } else {
        push_str(s, "false");
    }
}

/// Appends `{:?}` of an `Option<bool>`.
pub fn push_opt_bool(s: &mut String, o: Option<bool>)
    ensures
        final(s)@ == old(s)@ + opt_bool_debug(o),
{
    match o {
        Some(true) => push_str(s, "Some(true)"),
        Some(false) => push_str(s, "Some(false)"),
        None => push_str(s, "None"),
    }
}

/// Why the cargo check of a repository runs: only the state of the cached
/// remote hash is told apart, the check itself always runs.
#[derive(Clone, Copy)]
pub struct CargoCheckStatus {
    pub needs_remote: bool,
}

/// The cached remote hash is stale (taken for another push) or missing.
pub open spec fn remote_cache_stale(repo: RepoInfo) -> bool {
    repo.cargo_remote_hash_checked_at@ != repo.updated_at_raw@ || repo.cargo_remote_hash@.len() == 0
}

impl CargoCheckStatus {
    /// The status of `repo`.
    pub fn for_repo(repo: &RepoInfo) -> (r: Self)
        ensures
            r.needs_remote == remote_cache_stale(*repo),
    {
        let stale = !crate::text::str_eq(
            repo.cargo_remote_hash_checked_at.as_str(),
            repo.updated_at_raw.as_str(),
        ) || repo.cargo_remote_hash.as_str().is_empty();
        CargoCheckStatus { needs_remote: stale }
    }

    /// A status with the given remote-cache state.
    pub fn new(needs_remote: bool) -> (r: Self)
        ensures
            r.needs_remote == needs_remote,
    {
        CargoCheckStatus { needs_remote }
    }

    /// Whether the cached remote hash is stale or missing.
    pub fn needs_remote(self) -> (r: bool)
        ensures
            r == self.needs_remote,
    {
        self.needs_remote
    }
}

/// The reason logged before a cargo check.
pub open spec fn status_reason(needs_remote: bool) -> Seq<char> {
    if needs_remote {
        "cargo check を実行: local check には依存せず、remote hash cache が古いか空です"@
    } else {
        "cargo check を実行: local check には依存せず、installed hash 確認のため毎回実行します"@
    }
}

/// The reason logged before a cargo check.
pub fn format_cargo_check_status_reason(status: CargoCheckStatus) -> (r: &'static str)
    ensures
        r@ == status_reason(status.needs_remote),
{
    if status.needs_remote {
        "cargo check を実行: local check には依存せず、remote hash cache が古いか空です"
    } else {
        "cargo check を実行: local check には依存せず、installed hash 確認のため毎回実行します"
    }
}

/// The line logged before the cargo check of `repo`.
pub open spec fn status_log(repo: RepoInfo, needs_remote: bool) -> Seq<char> {
    status_reason(needs_remote) + ": needs_cargo_remote="@ + bool_text(needs_remote)
        + " updated_at_raw="@ + debug_str(repo.updated_at_raw@)
        + " cargo_remote_hash_checked_at="@ + debug_str(repo.cargo_remote_hash_checked_at@)
        + " cargo_remote_hash_present="@ + bool_text(repo.cargo_remote_hash@.len() > 0)
        + " cargo_install="@ + opt_bool_debug(repo.cargo_install) + " cargo_check_failed="@
        + bool_text(repo.cargo_check_failed)
}

/// The line logged before the cargo check of `repo`.
pub fn format_cargo_check_status_log(repo: &RepoInfo, status: CargoCheckStatus) -> (r: String)
    ensures
        r@ == status_log(*repo, status.needs_remote),
{
    let mut s = String::new();
    push_str(&mut s, format_cargo_check_status_reason(status));
    push_str(&mut s, ": needs_cargo_remote=");
    push_bool(&mut s, status.needs_remote);
    push_str(&mut s, " updated_at_raw=");
    let d = debug_string(repo.updated_at_raw.as_str());
    push_str(&mut s, d.as_str());
    push_str(&mut s, " cargo_remote_hash_checked_at=");
    let d = debug_string(repo.cargo_remote_hash_checked_at.as_str());
    push_str(&mut s, d.as_str());
    push_str(&mut s, " cargo_remote_hash_present=");
    push_bool(&mut s, !repo.cargo_remote_hash.as_str().is_empty());
    push_str(&mut s, " cargo_install=");
    push_opt_bool(&mut s, repo.cargo_install);
    push_str(&mut s, " cargo_check_failed=");
    push_bool(&mut s, repo.cargo_check_failed);
    assert(s@ =~= status_log(*repo, status.needs_remote));
    s
}

/// What is known of a repository's caches before its cargo check: the
/// local HEAD it was last checked at, and the cached remote hash.
#[derive(Clone, Copy)]
pub struct CargoCheckDecision {
    pub needs_local: bool,
    pub needs_remote: bool,
}

impl CargoCheckDecision {
    /// The decision for `repo` when its clone is at `local_head`.
    pub fn for_repo(repo: &RepoInfo, local_head: &str) -> (r: Self)
        ensures
            r.needs_local == (repo.cargo_checked_at@ != local_head@),
            r.needs_remote == remote_cache_stale(*repo),
    {
        let needs_local = !crate::text::str_eq(repo.cargo_checked_at.as_str(), local_head);
        let status = CargoCheckStatus::for_repo(repo);
        CargoCheckDecision { needs_local, needs_remote: status.needs_remote }
    }

    /// The check always runs: the installed binary can change without
    /// any cache going stale.
    pub fn needs_check(self) -> (r: bool)
        ensures
            r,
    {
        true
    }
}

/// The reason logged for a decision.
pub open spec fn decision_reason(needs_local: bool, needs_remote: bool) -> Seq<char> {
    if !needs_local && !needs_remote {
        "cargo check を実行: local HEAD と remote hash cache は最新ですが、installed hash 確認のため毎回実行します"@
    } else if !needs_local {
        "cargo check を実行: local HEAD cache は最新ですが、remote hash cache が古いか空です"@
    } else if !needs_remote {
        "cargo check を実行: remote hash cache は最新ですが、local HEAD cache が古いです"@
    } else {
        "cargo check を実行: local HEAD cache と remote hash cache の両方が古いか空です"@
    }
}

/// The reason logged for a decision.
pub fn format_cargo_check_decision_reason(decision: CargoCheckDecision) -> (r: &'static str)
    ensures
        r@ == decision_reason(decision.needs_local, decision.needs_remote),
{
    if !decision.needs_local && !decision.needs_remote {
        "cargo check を実行: local HEAD と remote hash cache は最新ですが、installed hash 確認のため毎回実行します"
    } else if !decision.needs_local {
        "cargo check を実行: local HEAD cache は最新ですが、remote hash cache が古いか空です"
    } else if !decision.needs_remote {
        "cargo check を実行: remote hash cache は最新ですが、local HEAD cache が古いです"
    } else {
        "cargo check を実行: local HEAD cache と remote hash cache の両方が古いか空です"
    }
}

/// The line logged for a decision about `repo` at `local_head`.
pub open spec fn decision_log(
    repo: RepoInfo,
    local_head: Seq<char>,
    needs_local: bool,
    needs_remote: bool,
) -> Seq<char> {
    decision_reason(needs_local, needs_remote) + ": needs_cargo_local="@ + bool_text(needs_local)
        + " needs_cargo_remote="@ + bool_text(needs_remote) + " local_head="@ + debug_str(
        local_head,
    ) + " cargo_checked_at="@ + debug_str(repo.cargo_checked_at@) + " updated_at_raw="@
        + debug_str(repo.updated_at_raw@) + " cargo_remote_hash_checked_at="@ + debug_str(
        repo.cargo_remote_hash_checked_at@,
    ) + " cargo_remote_hash_present="@ + bool_text(repo.cargo_remote_hash@.len() > 0)
        + " cargo_install="@ + opt_bool_debug(repo.cargo_install)
}

/// The line logged for a decision about `repo` at `local_head`.
pub fn format_cargo_check_decision_log(
    repo: &RepoInfo,
    local_head: &str,
    decision: CargoCheckDecision,
) -> (r: String)
    ensures
        r@ == decision_log(*repo, local_head@, decision.needs_local, decision.needs_remote),
{
    let mut s = String::new();
    push_str(&mut s, format_cargo_check_decision_reason(decision));
    push_str(&mut s, ": needs_cargo_local=");
    push_bool(&mut s, decision.needs_local);
    push_str(&mut s, " needs_cargo_remote=");
    push_bool(&mut s, decision.needs_remote);
    push_str(&mut s, " local_head=");
    let d = debug_string(local_head);
    push_str(&mut s, d.as_str());
    push_str(&mut s, " cargo_checked_at=");
    let d = debug_string(repo.cargo_checked_at.as_str());
    push_str(&mut s, d.as_str());
    push_str(&mut s, " updated_at_raw=");
    let d = debug_string(repo.updated_at_raw.as_str());
    push_str(&mut s, d.as_str());
    push_str(&mut s, " cargo_remote_hash_checked_at=");
    let d = debug_string(repo.cargo_remote_hash_checked_at.as_str());
    push_str(&mut s, d.as_str());
    push_str(&mut s, " cargo_remote_hash_present=");
    push_bool(&mut s, !repo.cargo_remote_hash.as_str().is_empty());
    push_str(&mut s, " cargo_install=");
    push_opt_bool(&mut s, repo.cargo_install);
    assert(s@ =~= decision_log(*repo, local_head@, decision.needs_local, decision.needs_remote));
    s
}

/// The cargo fields of a repository record that one check decides.
#[derive(Debug, Clone, PartialEq, Eq)]
pub struct CargoCheckFields {
    pub cargo_install: Option<bool>,
    pub cargo_checked_at: String,
    pub cargo_remote_hash: String,
    pub cargo_remote_hash_checked_at: String,
    pub cargo_installed_hash: String,
    pub cargo_check_failed: bool,
    pub cargo_bin_check: Option<bool>,
}

impl Default for CargoCheckFields {
    /// Nothing known: no verdict and no hashes.
    fn default() -> (r: Self)
        ensures
            r.cargo_install is None,
            r.cargo_checked_at@.len() == 0,
            r.cargo_remote_hash@.len() == 0,
            r.cargo_remote_hash_checked_at@.len() == 0,
            r.cargo_installed_hash@.len() == 0,
            !r.cargo_check_failed,
            r.cargo_bin_check is None,
    {
        CargoCheckFields {
            cargo_install: None,
            cargo_checked_at: String::new(),
            cargo_remote_hash: String::new(),
            cargo_remote_hash_checked_at: String::new(),
            cargo_installed_hash: String::new(),
            cargo_check_failed: false,
            cargo_bin_check: None,
        }
    }
}

/// `new` is `old` with the cargo fields of `f` written into it.
pub open spec fn fields_applied(old: RepoInfo, new: RepoInfo, f: CargoCheckFields) -> bool {
    same_repo(
        new,
        RepoInfo {
            cargo_install: f.cargo_install,
            cargo_checked_at: f.cargo_checked_at,
            cargo_remote_hash: f.cargo_remote_hash,
            cargo_remote_hash_checked_at: f.cargo_remote_hash_checked_at,
            cargo_installed_hash: f.cargo_installed_hash,
            cargo_check_failed: f.cargo_check_failed,
            cargo_bin_check: f.cargo_bin_check,
            ..old
        },
    )
}

impl CargoCheckFields {
    /// A copy of these fields.
    pub fn duplicate(&self) -> (r: Self)
        ensures
            r.cargo_install == self.cargo_install,
            r.cargo_checked_at@ == self.cargo_checked_at@,
            r.cargo_remote_hash@ == self.cargo_remote_hash@,
            r.cargo_remote_hash_checked_at@ == self.cargo_remote_hash_checked_at@,
            r.cargo_installed_hash@ == self.cargo_installed_hash@,
            r.cargo_check_failed == self.cargo_check_failed,
            r.cargo_bin_check == self.cargo_bin_check,
    {
        CargoCheckFields {
            cargo_install: self.cargo_install,
            cargo_checked_at: self.cargo_checked_at.clone(),
            cargo_remote_hash: self.cargo_remote_hash.clone(),
            cargo_remote_hash_checked_at: self.cargo_remote_hash_checked_at.clone(),
            cargo_installed_hash: self.cargo_installed_hash.clone(),
            cargo_check_failed: self.cargo_check_failed,
            cargo_bin_check: self.cargo_bin_check,
        }
    }

    /// Writes these fields into `repo`, leaving its other fields alone.
    pub fn apply_to(&self, repo: &mut RepoInfo)
        ensures
            fields_applied(*old(repo), *final(repo), *self),
    {
        repo.cargo_install = self.cargo_install;
        repo.cargo_checked_at = self.cargo_checked_at.clone();
        repo.cargo_remote_hash = self.cargo_remote_hash.clone();
        repo.cargo_remote_hash_checked_at = self.cargo_remote_hash_checked_at.clone();
        repo.cargo_installed_hash = self.cargo_installed_hash.clone();
        repo.cargo_check_failed = self.cargo_check_failed;
        repo.cargo_bin_check = self.cargo_bin_check;
    }
}

/// The fields decided by a checkout comparison alone:
/// `(cargo_install, cargo_checked_at, cargo_remote_hash,
/// cargo_remote_hash_checked_at, cargo_installed_hash, cargo_check_failed)`.
/// A checked comparison gives its verdict and hashes, stamped with
/// `updated_at_raw`; otherwise nothing is kept, and a failure is marked.
pub fn resolve_cargo_check_fields(
    updated_at_raw: &str,
    checkout_result: CargoGitInstallCheck,
) -> (r: (Option<bool>, String, String, String, String, bool))
    ensures
        match checkout_result {
            CargoGitInstallCheck::Checked {
                matches_remote,
                installed_hash,
                local_hash,
                remote_hash,
            } => r.0 == Some(matches_remote) && r.1@ == local_hash@ && r.2@ == remote_hash@
                && r.3@ == updated_at_raw@ && r.4@ == installed_hash@ && !r.5,
            CargoGitInstallCheck::NotInstalled => r.0 is None && r.1@.len() == 0 && r.2@.len() == 0
                && r.3@.len() == 0 && r.4@.len() == 0 && !r.5,
            CargoGitInstallCheck::Failed => r.0 is None && r.1@.len() == 0 && r.2@.len() == 0
                && r.3@.len() == 0 && r.4@.len() == 0 && r.5,
        },
{
    match checkout_result {
        CargoGitInstallCheck::Checked { matches_remote, installed_hash, local_hash, remote_hash } => (
            Some(matches_remote),
            local_hash,
            remote_hash,
            updated_at_raw.to_owned(),
            installed_hash,
            false,
        ),
        CargoGitInstallCheck::NotInstalled => (
            None,
            String::new(),
            String::new(),
            String::new(),
            String::new(),
            false,
        ),
        CargoGitInstallCheck::Failed => (
            None,
            String::new(),
            String::new(),
            String::new(),
            String::new(),
            true,
        ),
    }
}

/// The local clone HEAD read by a checkout comparison (empty when none).
pub open spec fn checkout_local_hash(c: CargoGitInstallCheck) -> Seq<char> {
    match c {
        CargoGitInstallCheck::Checked { local_hash, .. } => local_hash@,
        _ => Seq::empty(),
    }
}

/// The cargo fields decided by the binary's own report `bin_check`; the
/// checkout check `checkout_result` only gives the local HEAD kept for the
/// log.  The checkout catches up with the remote when cargo fetches,
/// whether or not the installed binary was replaced.  A report that could
/// not be had leaves the verdict open and marks the failure.
pub open spec fn bin_check_fields(
    updated_at_raw: Seq<char>,
    bin_check: BinCheckOutcome,
    checkout_result: CargoGitInstallCheck,
    r: CargoCheckFields,
) -> bool {
    match bin_check {
        BinCheckOutcome::UpToDate { embedded, remote } => r.cargo_install == Some(true)
            && r.cargo_bin_check == Some(true) && r.cargo_checked_at@ == checkout_local_hash(
            checkout_result,
        ) && r.cargo_remote_hash@ == remote@ && r.cargo_remote_hash_checked_at@
            == updated_at_raw && r.cargo_installed_hash@ == embedded@ && !r.cargo_check_failed,
        BinCheckOutcome::UpdateAvailable { embedded, remote } => r.cargo_install == Some(false)
            && r.cargo_bin_check == Some(false) && r.cargo_checked_at@ == checkout_local_hash(
            checkout_result,
        ) && r.cargo_remote_hash@ == remote@ && r.cargo_remote_hash_checked_at@
            == updated_at_raw && r.cargo_installed_hash@ == embedded@ && !r.cargo_check_failed,
        BinCheckOutcome::Unavailable { .. } => r.cargo_install is None && r.cargo_bin_check is None
            && r.cargo_checked_at@.len() == 0 && r.cargo_remote_hash@.len() == 0
            && r.cargo_remote_hash_checked_at@.len() == 0 && r.cargo_installed_hash@.len() == 0
            && r.cargo_check_failed,
        BinCheckOutcome::NotInstalled => r.cargo_install is None && r.cargo_bin_check is None
            && r.cargo_checked_at@.len() == 0 && r.cargo_remote_hash@.len() == 0
            && r.cargo_remote_hash_checked_at@.len() == 0 && r.cargo_installed_hash@.len() == 0
            && !r.cargo_check_failed,
    }
}

/// The cargo fields of one repository, decided by the binaries' own report.
///
/// The checkout comparison only gives the local HEAD kept for the log: the
/// checkout catches up with the remote when cargo fetches, whether or not
/// the installed binary was replaced.  A report that could not be had
/// leaves the verdict open and marks the failure.
pub fn resolve_bin_check_fields(
    updated_at_raw: &str,
    bin_check: &BinCheckOutcome,
    checkout_result: &CargoGitInstallCheck,
) -> (r: CargoCheckFields)
    ensures
        bin_check_fields(updated_at_raw@, *bin_check, *checkout_result, r),
{
    let local_hash = match checkout_result {
        CargoGitInstallCheck::Checked { local_hash, .. } => local_hash.clone(),
        CargoGitInstallCheck::NotInstalled => String::new(),
        CargoGitInstallCheck::Failed => String::new(),
    };
    match bin_check {
        BinCheckOutcome::UpToDate { embedded, remote } => CargoCheckFields {
            cargo_install: Some(true),
            cargo_checked_at: local_hash,
            cargo_remote_hash: remote.clone(),
            cargo_remote_hash_checked_at: updated_at_raw.to_owned(),
            cargo_installed_hash: embedded.clone(),
            cargo_check_failed: false,
            cargo_bin_check: Some(true),
        },
        BinCheckOutcome::UpdateAvailable { embedded, remote } => CargoCheckFields {
            cargo_install: Some(false),
            cargo_checked_at: local_hash,
            cargo_remote_hash: remote.clone(),
            cargo_remote_hash_checked_at: updated_at_raw.to_owned(),
            cargo_installed_hash: embedded.clone(),
            cargo_check_failed: false,
            cargo_bin_check: Some(false),
        },
        BinCheckOutcome::Unavailable { .. } => {
            let mut f = CargoCheckFields::default();
            f.cargo_check_failed = true;
            f
        },
        BinCheckOutcome::NotInstalled => CargoCheckFields::default(),
    }
}

/// The note logged when the checkout HEAD and the binary's own report
/// disagree: only then, and only when both are known.
pub fn checkout_divergence_message(
    bin_check: &BinCheckOutcome,
    checkout_result: &CargoGitInstallCheck,
) -> (r: Option<String>)
    ensures
        match (bin_check, checkout_result) {
            (BinCheckOutcome::UpToDate { embedded, .. }, CargoGitInstallCheck::Checked {
                installed_hash,
                ..
            }) => if embedded@ == installed_hash@ {
                r is None
            } else {
                r matches Some(m) && m@ == divergence_text(installed_hash@, embedded@)
            },
            (BinCheckOutcome::UpdateAvailable { embedded, .. }, CargoGitInstallCheck::Checked {
                installed_hash,
                ..
            }) => if embedded@ == installed_hash@ {
                r is None
            } else {
                r matches Some(m) && m@ == divergence_text(installed_hash@, embedded@)
            },
            _ => r is None,
        },
{
    let embedded = match bin_check.embedded_hash() {
        Some(e) => e,
        None => {
            return None;
        },
    };
    let installed_hash = match checkout_result {
        CargoGitInstallCheck::Checked { installed_hash, .. } => installed_hash,
        CargoGitInstallCheck::NotInstalled => {
            return None;
        },
        CargoGitInstallCheck::Failed => {
            return None;
        },
    };
    if crate::text::str_eq(embedded, installed_hash.as_str()) {
        return None;
    }
    let mut s = String::new();
    push_str(&mut s, "参考: checkout HEAD=");
    push_str(&mut s, installed_hash.as_str());
    push_str(&mut s, " は binary embedded=");
    push_str(&mut s, embedded);
    push_str(&mut s, " と食い違います。binary self-report を採用します");
    assert(s@ =~= divergence_text(installed_hash@, embedded@));
    Some(s)
}

/// The divergence note for a checkout HEAD and an embedded hash.
pub open spec fn divergence_text(installed: Seq<char>, embedded: Seq<char>) -> Seq<char> {
    "参考: checkout HEAD="@ + installed + " は binary embedded="@ + embedded
        + " と食い違います。binary self-report を採用します"@
}

/// The keys by which repositories are ordered for the cargo checks: their
/// push times, all in one group.
pub open spec fn update_keys(repos: Seq<RepoInfo>) -> Seq<(int, Seq<char>, Seq<char>)> {
    Seq::new(repos.len(), |i: int| (0int, repos[i].updated_at_raw@, Seq::<char>::empty()))
}

/// The sort keys of `repos` for the cargo checks.
pub fn update_key_list(repos: &[RepoInfo]) -> (r: Vec<SortKey>)
    ensures
        key_views(r@) == update_keys(repos@),
{
    let mut r: Vec<SortKey> = Vec::new();
    let mut i: usize = 0;
    while i < repos.len()
        invariant
            i <= repos@.len(),
            r@.len() == i,
            forall|j: int|
                0 <= j < i ==> crate::order::key_view(#[trigger] r@[j]) == (
                    0int,
                    repos@[j].updated_at_raw@,
                    Seq::<char>::empty(),
                ),
        decreases repos@.len() - i,
    {
        r.push(SortKey { group: 0, text: repos[i].updated_at_raw.clone(), tie: String::new() });
        i += 1;
    }
    assert(key_views(r@) =~= update_keys(repos@));
    r
}

/// The order of the cargo checks: most recently pushed first, repositories
/// pushed at the same time in their listed order.
pub fn cargo_check_order(repos: &[RepoInfo]) -> (r: Vec<String>)
    ensures
        exists|perm: Seq<int>|
            #![trigger sorted_stable(update_keys(repos@), perm)]
            sorted_stable(update_keys(repos@), perm) && r@.len() == repos@.len() && forall|
                k: int,
            |
                0 <= k < r@.len() ==> (#[trigger] r@[k])@ == repos@[perm[k]].name@,
{
    let keys = update_key_list(repos);
    let perm = sort_indices_stable(&keys);
    let ghost pv = perm@.map_values(|i: usize| i as int);
    let mut r: Vec<String> = Vec::new();
    let mut k: usize = 0;
    while k < perm.len()
        invariant
            k <= perm@.len(),
            perm@.len() == repos@.len(),
            pv == perm@.map_values(|i: usize| i as int),
            sorted_stable(update_keys(repos@), pv),
            r@.len() == k,
            forall|j: int| 0 <= j < k ==> (#[trigger] r@[j])@ == repos@[pv[j]].name@,
        decreases perm@.len() - k,
    {
        assert(pv[k as int] == perm@[k as int] as int);
        r.push(repos[perm[k]].name.clone());
        k += 1;
    }
    r
}

/// The last repository of `repos` named `name` (-1 when none).
pub open spec fn last_named(repos: Seq<RepoInfo>, name: Seq<char>) -> int
    decreases repos.len(),
{
    if repos.len() == 0 {
        -1
    } else if repos.last().name@ == name {
        repos.len() - 1
    } else {
        last_named(repos.drop_last(), name)
    }
}

proof fn lemma_last_named_bounds(repos: Seq<RepoInfo>, name: Seq<char>)
    ensures
        -1 <= last_named(repos, name) < repos.len(),
        last_named(repos, name) >= 0 ==> repos[last_named(repos, name)].name@ == name,
        (exists|j: int| 0 <= j < repos.len() && (#[trigger] repos[j]).name@ == name) ==> last_named(
            repos,
            name,
        ) >= 0,
    decreases repos.len(),
{
    if repos.len() > 0 {
        lemma_last_named_bounds(repos.drop_last(), name);
        if repos.last().name@ != name {
            if exists|j: int| 0 <= j < repos.len() && (#[trigger] repos[j]).name@ == name {
                let j = choose|j: int| 0 <= j < repos.len() && (#[trigger] repos[j]).name@ == name;
                assert(repos.drop_last()[j] == repos[j]);
            }
        }
    }
}

/// The last repository of `repos` named `name`, found from the end.
fn find_last_named(repos: &[RepoInfo], name: &str) -> (r: Option<usize>)
    ensures
        match r {
            Some(i) => i as int == last_named(repos@, name@),
            None => last_named(repos@, name@) == -1,
        },
{
    let mut j: usize = repos.len();
    assert(repos@.take(j as int) =~= repos@);
    while j > 0
        invariant
            j <= repos@.len(),
            last_named(repos@, name@) == last_named(repos@.take(j as int), name@),
        decreases j,
    {
        if crate::text::str_eq(repos[j - 1].name.as_str(), name) {
            return Some(j - 1);
        }
        assert(repos@.take(j as int).drop_last() =~= repos@.take(j - 1));
        j -= 1;
    }
    None
}

/// The cargo check tasks: the repository records in check order (for a
/// name listed twice, the later record).
pub fn build_cargo_tasks(repos: &[RepoInfo]) -> (r: Vec<RepoInfo>)
    ensures
        exists|perm: Seq<int>|
            #![trigger sorted_stable(update_keys(repos@), perm)]
            sorted_stable(update_keys(repos@), perm) && r@.len() == repos@.len() && forall|
                k: int,
            |
                0 <= k < r@.len() ==> same_repo(
                    #[trigger] r@[k],
                    repos@[last_named(repos@, repos@[perm[k]].name@)],
                ),
{
    let order = cargo_check_order(repos);
    let ghost perm = choose|perm: Seq<int>|
        #![trigger sorted_stable(update_keys(repos@), perm)]
        sorted_stable(update_keys(repos@), perm) && order@.len() == repos@.len() && forall|
            k: int,
        |
            0 <= k < order@.len() ==> (#[trigger] order@[k])@ == repos@[perm[k]].name@;
    let mut r: Vec<RepoInfo> = Vec::new();
    let mut k: usize = 0;
    while k < order.len()
        invariant
            k <= order@.len(),
            order@.len() == repos@.len(),
            sorted_stable(update_keys(repos@), perm),
            forall|j: int| 0 <= j < order@.len() ==> (#[trigger] order@[j])@ == repos@[perm[j]].name@,
            r@.len() == k,
            forall|j: int|
                0 <= j < k ==> same_repo(
                    #[trigger] r@[j],
                    repos@[last_named(repos@, repos@[perm[j]].name@)],
                ),
        decreases order@.len() - k,
    {
        let found = find_last_named(repos, order[k].as_str());
        proof {
            let p = perm[k as int];
            assert(0 <= p < repos@.len());
            lemma_last_named_bounds(repos@, order@[k as int]@);
            assert(repos@[p].name@ == order@[k as int]@);
        }
        match found {
            Some(i) => {
                r.push(repos[i].duplicate());
            },
            None => {
                proof {
                    assert(false);
                }
            },
        }
        k += 1;
    }
    r
}

} // verus!
