//! The cached state kept between runs, and how results are merged into it.
use vstd::prelude::*;

use std::collections::HashMap;

use crate::bin_check::BinCheckOutcome;
use crate::cargo_checks::{
    CargoCheckFields, bin_check_fields, checkout_divergence_message, fields_applied,
    resolve_bin_check_fields,
};
use crate::cargo_install::CargoGitInstallCheck;
use crate::text::{chars_of, push_str, string_of};
use crate::types::{RateLimit, RepoInfo, same_repo};

verus! {

/// What is kept between runs: the ETag of each query, the repositories and
/// the last rate limit.
pub struct History {
    pub etags: HashMap<String, String>,
    pub repos: Vec<RepoInfo>,
    pub rate_limit: Option<RateLimit>,
}

impl Default for History {
    /// Nothing cached.
    fn default() -> (r: Self)
        ensures
            r.etags@ == Map::<String, String>::empty(),
            r.repos@.len() == 0,
            r.rate_limit is None,
    {
        History { etags: HashMap::new(), repos: Vec::new(), rate_limit: None }
    }
}

/// The first repository of `repos` named `name` (-1 when none).
pub open spec fn first_named(repos: Seq<RepoInfo>, name: Seq<char>) -> int
    decreases repos.len(),
{
    if repos.len() == 0 {
        -1
    } else if repos[0].name@ == name {
        0
    } else if first_named(repos.drop_first(), name) < 0 {
        -1
    } else {
        1 + first_named(repos.drop_first(), name)
    }
}

pub proof fn lemma_first_named(repos: Seq<RepoInfo>, name: Seq<char>, i: int)
    requires
        0 <= i <= repos.len(),
        forall|j: int| 0 <= j < i ==> (#[trigger] repos[j]).name@ != name,
        i < repos.len() ==> repos[i].name@ == name,
    ensures
        first_named(repos, name) == if i < repos.len() {
            i
        } else {
            -1
        },
    decreases i,
{
    if repos.len() > 0 && i > 0 {
        assert forall|j: int| 0 <= j < i - 1 implies (#[trigger] repos.drop_first()[j]).name@
            != name by {
            assert(repos.drop_first()[j] == repos[j + 1]);
        }
        if i < repos.len() {
            assert(repos.drop_first()[i - 1] == repos[i]);
        }
        lemma_first_named(repos.drop_first(), name, i - 1);
    }
}

/// Index of the first repository of `repos` named `name`.
pub fn find_first_named(repos: &Vec<RepoInfo>, name: &str) -> (r: Option<usize>)
    ensures
        match r {
            Some(i) => i < repos@.len() && i as int == first_named(repos@, name@),
            None => first_named(repos@, name@) == -1,
        },
{
    let mut i: usize = 0;
    while i < repos.len()
        invariant
            i <= repos@.len(),
            forall|j: int| 0 <= j < i ==> (#[trigger] repos@[j]).name@ != name@,
        decreases repos@.len() - i,
    {
        if crate::text::str_eq(repos[i].name.as_str(), name) {
            proof {
                lemma_first_named(repos@, name@, i as int);
            }
            return Some(i);
        }
        i += 1;
    }
    proof {
        lemma_first_named(repos@, name@, i as int);
    }
    None
}

/// The outcome of one repository's cargo check.
pub struct CargoRepoResult {
    pub name: String,
    pub full_name: String,
    pub fields: CargoCheckFields,
}

/// `new` is `old` with the cargo fields of `f` written into its first
/// repository named `name`; nothing changes when there is none.
pub open spec fn merged_into(old: History, new: History, name: Seq<char>, f: CargoCheckFields) -> bool {
    let i = first_named(old.repos@, name);
    &&& new.etags == old.etags
    &&& new.rate_limit == old.rate_limit
    &&& new.repos@.len() == old.repos@.len()
    &&& forall|k: int|
        0 <= k < old.repos@.len() && k != i ==> #[trigger] new.repos@[k] == old.repos@[k]
    &&& 0 <= i ==> fields_applied(old.repos@[i], new.repos@[i], f)
}

/// Writes a cargo check outcome into the cached repository of that name.
pub fn apply_cargo_result_to_history(history: &mut History, result: &CargoRepoResult)
    ensures
        merged_into(*old(history), *final(history), result.name@, result.fields),
{
    match find_first_named(&history.repos, result.name.as_str()) {
        Some(i) => {
            let mut r = history.repos[i].duplicate();
            result.fields.apply_to(&mut r);
            history.repos.set(i, r);
        },
        None => {},
    }
}

/// A character that may stand in a file name as it is.
pub open spec fn keeps_in_path(c: char) -> bool {
    ('0' <= c <= '9') || ('a' <= c <= 'z') || ('A' <= c <= 'Z') || c == '-' || c == '_'
}

/// `value` with each character that is not ASCII alphanumeric, `-` or `_`
/// replaced by `_`.
pub open spec fn path_safe_chars(value: Seq<char>) -> Seq<char> {
    value.map_values(|c: char| if keeps_in_path(c) { c } else { '_' })
}

/// A file name made from `value`: its path-safe characters, or `unnamed`
/// when there are none.
pub open spec fn sanitized_component(value: Seq<char>) -> Seq<char> {
    if value.len() == 0 {
        "unnamed"@
    } else {
        path_safe_chars(value)
    }
}

/// A file name made from `value` that every platform accepts.
pub fn sanitize_path_component(value: &str) -> (r: String)
    ensures
        r@ == sanitized_component(value@),
{
    let v = chars_of(value);
    let mut out: Vec<char> = Vec::new();
    let mut i: usize = 0;
    while i < v.len()
        invariant
            i <= v@.len(),
            v@ == value@,
            out@ == path_safe_chars(v@.take(i as int)),
        decreases v@.len() - i,
    {
        let c = v[i];
        let kept = ('0' <= c && c <= '9') || ('a' <= c && c <= 'z') || ('A' <= c && c <= 'Z')
            || c == '-' || c == '_';
        out.push(if kept { c } else { '_' });
        assert(path_safe_chars(v@.take(i + 1)) =~= path_safe_chars(v@.take(i as int)).push(
            if keeps_in_path(c) { c } else { '_' },
        ));
        i += 1;
    }
    assert(v@.take(v@.len() as int) =~= v@);
    if out.len() == 0 {
        let mut s = String::new();
        push_str(&mut s, "unnamed");
        return s;
    }
    string_of(out.as_slice())
}

/// The checkout check made for a binary report: none for a repository
/// that is not installed (`NotInstalled` stands), else one run of
/// `check_checkout` gave `c`.
pub open spec fn checkout_for_report<C: FnOnce() -> CargoGitInstallCheck>(
    bin_check: BinCheckOutcome,
    check_checkout: C,
    c: CargoGitInstallCheck,
) -> bool {
    if bin_check is NotInstalled {
        c == CargoGitInstallCheck::NotInstalled
    } else {
        call_ensures(check_checkout, (), c)
    }
}

/// The cargo check of one repository: the binary's own report `bin_check`
/// decides; the checkout HEAD is read (`check_checkout`) only for an
/// installed repository, and a disagreement of the two is noted through
/// `log_note`.
pub fn run_cargo_repo_task<C, L>(
    repo: &RepoInfo,
    bin_check: BinCheckOutcome,
    check_checkout: C,
    log_note: L,
) -> (r: CargoRepoResult) where C: FnOnce() -> CargoGitInstallCheck, L: FnOnce(&str)
    requires
        call_requires(check_checkout, ()),
        forall|s: &str| call_requires(log_note, (s,)),
    ensures
        r.name@ == repo.name@,
        r.full_name@ == repo.full_name@,
        exists|c: CargoGitInstallCheck|
            #![trigger checkout_for_report(bin_check, check_checkout, c)]
            checkout_for_report(bin_check, check_checkout, c) && bin_check_fields(
                repo.updated_at_raw@,
                bin_check,
                c,
                r.fields,
            ),
{
    let not_installed = match bin_check {
        BinCheckOutcome::NotInstalled => true,
        _ => false,
    };
    let checkout = if not_installed {
        CargoGitInstallCheck::NotInstalled
    } else {
        check_checkout()
    };
    assert(checkout_for_report(bin_check, check_checkout, checkout));
    match checkout_divergence_message(&bin_check, &checkout) {
        Some(m) => log_note(m.as_str()),
        None => {},
    }
    let fields = resolve_bin_check_fields(repo.updated_at_raw.as_str(), &bin_check, &checkout);
    CargoRepoResult { name: repo.name.clone(), full_name: repo.full_name.clone(), fields }
}

/// `new` is `old` with the cargo state of `repo` (verdict, local HEAD,
/// remote hash and when it was read, installed hash) copied into its first
/// repository named like `repo`; nothing else changes.
pub open spec fn cargo_state_copied(old: History, new: History, repo: RepoInfo) -> bool {
    let i = first_named(old.repos@, repo.name@);
    &&& new.etags == old.etags
    &&& new.rate_limit == old.rate_limit
    &&& new.repos@.len() == old.repos@.len()
    &&& forall|k: int|
        0 <= k < old.repos@.len() && k != i ==> #[trigger] new.repos@[k] == old.repos@[k]
    &&& 0 <= i ==> {
        let (a, b) = (old.repos@[i], new.repos@[i]);
        &&& b.cargo_install == repo.cargo_install
        &&& b.cargo_checked_at@ == repo.cargo_checked_at@
        &&& b.cargo_remote_hash@ == repo.cargo_remote_hash@
        &&& b.cargo_remote_hash_checked_at@ == repo.cargo_remote_hash_checked_at@
        &&& b.cargo_installed_hash@ == repo.cargo_installed_hash@
        &&& same_repo(
            b,
            RepoInfo {
                cargo_install: b.cargo_install,
                cargo_checked_at: b.cargo_checked_at,
                cargo_remote_hash: b.cargo_remote_hash,
                cargo_remote_hash_checked_at: b.cargo_remote_hash_checked_at,
                cargo_installed_hash: b.cargo_installed_hash,
                ..a
            },
        )
    }
}

/// Copies the cargo state of `repo` into the cached repository of that
/// name, so that it is kept between runs.
pub fn copy_cargo_state_to_history(history: &mut History, repo: &RepoInfo)
    ensures
        cargo_state_copied(*old(history), *final(history), *repo),
{
    match find_first_named(&history.repos, repo.name.as_str()) {
        Some(i) => {
            let mut r = history.repos[i].duplicate();
            r.cargo_install = repo.cargo_install;
            r.cargo_checked_at = repo.cargo_checked_at.clone();
            r.cargo_remote_hash = repo.cargo_remote_hash.clone();
            r.cargo_remote_hash_checked_at = repo.cargo_remote_hash_checked_at.clone();
            r.cargo_installed_hash = repo.cargo_installed_hash.clone();
            history.repos.set(i, r);
        },
        None => {},
    }
}

} // verus!
