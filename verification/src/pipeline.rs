//! Decisions of the fetch pipeline: which clones are pulled, which cargo
//! checks run before the fetch, and whether a stale install is updated.
use vstd::prelude::*;

use crate::text::{
    eq_ignore_ascii_case, lines, lines_of, push_str, str_eq, str_eq_ignore_ascii_case, string_of,
    trim, trim_chars, views,
};
use crate::types::{LocalStatus, RepoInfo, same_repo, same_repos};

verus! {

broadcast use vstd::function::group_function_axioms;

/// A clone is pulled when it is behind and clean, or when it has local
/// changes but its HEAD is not already the upstream's.
pub open spec fn auto_pull_wanted(status: LocalStatus, head_matches_upstream: bool) -> bool {
    match status {
        LocalStatus::Pullable => true,
        LocalStatus::Modified | LocalStatus::Staging => !head_matches_upstream,
        _ => false,
    }
}

/// Whether a clone in `local_status` is pulled.
pub fn should_auto_pull_status(local_status: &LocalStatus, head_matches_upstream: bool) -> (r: bool)
    ensures
        r == auto_pull_wanted(*local_status, head_matches_upstream),
{
    match local_status {
        LocalStatus::Pullable => true,
        LocalStatus::Modified => !head_matches_upstream,
        LocalStatus::Staging => !head_matches_upstream,
        _ => false,
    }
}

/// `w` is whether `repo` is pulled, its HEAD compared with the upstream's
/// through `head_matches_upstream` when it has local changes.
pub open spec fn pull_decision<H: Fn(&str) -> bool>(repo: RepoInfo, head_matches_upstream: H, w: bool) -> bool {
    match repo.local_status {
        LocalStatus::Modified | LocalStatus::Staging => exists|s: &str, m: bool|
            #![trigger call_ensures(head_matches_upstream, (s,), m)]
            s@ == repo.name@ && call_ensures(head_matches_upstream, (s,), m) && w == auto_pull_wanted(
                repo.local_status,
                m,
            ),
        _ => w == auto_pull_wanted(repo.local_status, false),
    }
}

/// Whether `repo` is pulled; `head_matches_upstream` is asked only for a
/// clone with local changes.
pub fn should_auto_pull_repo<H: Fn(&str) -> bool>(repo: &RepoInfo, head_matches_upstream: &H) -> (r:
    bool)
    requires
        forall|s: &str| call_requires(*head_matches_upstream, (s,)),
    ensures
        pull_decision(*repo, *head_matches_upstream, r),
{
    let dirty = match repo.local_status {
        LocalStatus::Modified => true,
        LocalStatus::Staging => true,
        _ => false,
    };
    let matches = if dirty {
        let name = repo.name.as_str();
        let m = head_matches_upstream(name);
        assert(call_ensures(*head_matches_upstream, (name,), m));
        m
    } else {
        false
    };
    should_auto_pull_status(&repo.local_status, matches)
}

/// Each of the first `n` repositories is among `targets` exactly when it
/// is pulled.
pub open spec fn targets_decided<H: Fn(&str) -> bool>(
    repos: Seq<RepoInfo>,
    head_matches_upstream: H,
    targets: Seq<usize>,
    n: int,
) -> bool {
    forall|t: int|
        #![trigger repos[t]]
        0 <= t < n ==> pull_decision(repos[t], head_matches_upstream, targets.contains(t as usize))
}

/// Deciding the repository at `i` extends what is decided by one.
proof fn lemma_targets_step<H: Fn(&str) -> bool>(
    repos: Seq<RepoInfo>,
    h: H,
    before: Seq<usize>,
    after: Seq<usize>,
    i: int,
    w: bool,
)
    requires
        0 <= i < repos.len(),
        i < usize::MAX,
        targets_decided(repos, h, before, i),
        forall|k: int| 0 <= k < before.len() ==> before[k] < i,
        pull_decision(repos[i], h, w),
        after == (if w {
            before.push(i as usize)
        } else {
            before
        }),
    ensures
        targets_decided(repos, h, after, i + 1),
{
    assert forall|t: int| #![trigger repos[t]] 0 <= t < i + 1 implies pull_decision(
        repos[t],
        h,
        after.contains(t as usize),
    ) by {
        if t < i {
            assert(pull_decision(repos[t], h, before.contains(t as usize)));
            if w {
                if after.contains(t as usize) && !before.contains(t as usize) {
                    let k = choose|k: int| 0 <= k < after.len() && after[k] == t as usize;
                    assert(k == before.len());
                }
                if before.contains(t as usize) {
                    let k = choose|k: int| 0 <= k < before.len() && before[k] == t as usize;
                    assert(after[k] == t as usize);
                }
            }
            assert(after.contains(t as usize) == before.contains(t as usize));
        } else {
            if w {
                assert(after[after.len() - 1] == i as usize);
            } else {
                if after.contains(t as usize) {
                    let k = choose|k: int| 0 <= k < after.len() && after[k] == t as usize;
                    assert(after[k] < i);
                }
            }
            assert(after.contains(t as usize) == w);
        }
    }
}

/// The indices, in order, of the repositories to pull (none when automatic
/// pulls are off).
pub fn auto_pull_targets<H: Fn(&str) -> bool>(
    repos: &Vec<RepoInfo>,
    auto_pull: bool,
    head_matches_upstream: &H,
) -> (r: Vec<usize>)
    requires
        forall|s: &str| call_requires(*head_matches_upstream, (s,)),
    ensures
        !auto_pull ==> r@.len() == 0,
        forall|j: int, k: int| 0 <= j < k < r@.len() ==> r@[j] < r@[k],
        forall|k: int| 0 <= k < r@.len() ==> r@[k] < repos@.len(),
        auto_pull ==> targets_decided(repos@, *head_matches_upstream, r@, repos@.len() as int),
{
    let mut r: Vec<usize> = Vec::new();
    if !auto_pull {
        return r;
    }
    let mut i: usize = 0;
    while i < repos.len()
        invariant
            i <= repos@.len(),
            forall|s: &str| call_requires(*head_matches_upstream, (s,)),
            forall|j: int, k: int| 0 <= j < k < r@.len() ==> r@[j] < r@[k],
            forall|k: int| 0 <= k < r@.len() ==> r@[k] < i,
            targets_decided(repos@, *head_matches_upstream, r@, i as int),
        decreases repos@.len() - i,
    {
        let w = should_auto_pull_repo(&repos[i], head_matches_upstream);
        let ghost before = r@;
        if w {
            r.push(i);
        }
        proof {
            lemma_targets_step(repos@, *head_matches_upstream, before, r@, i as int, w);
        }
        i += 1;
    }
    r
}

/// What a recheck says of a repository whose install was old.
#[derive(Debug, PartialEq, Eq)]
pub enum AutoUpdateAfterRecheck {
    /// The install was not old; no recheck was made.
    NotOldBeforeRecheck,
    /// The recheck could not tell.
    RecheckFailed,
    /// Still behind the remote.
    StillOld { installed_hash: String, remote_hash: String },
    /// Caught up in the meantime.
    UpdatedDuringRecheck { installed_hash: String, remote_hash: String },
}

/// The verdict drawn from a recheck result.
pub open spec fn recheck_verdict(
    res: Option<(bool, String, String, String)>,
    r: AutoUpdateAfterRecheck,
) -> bool {
    match res {
        Some((false, installed, _local, remote)) => r matches AutoUpdateAfterRecheck::StillOld {
            installed_hash,
            remote_hash,
        } && installed_hash@ == installed@ && remote_hash@ == remote@,
        Some((true, installed, _local, remote)) => r matches AutoUpdateAfterRecheck::UpdatedDuringRecheck {
            installed_hash,
            remote_hash,
        } && installed_hash@ == installed@ && remote_hash@ == remote@,
        None => r is RecheckFailed,
    }
}

/// Rechecks a repository whose cargo install was old (`Some(false)`);
/// for any other state no recheck is made.
pub fn inspect_auto_update_after_recheck<Recheck>(
    owner: &str,
    repo_name: &str,
    base_dir: &str,
    cargo_install: Option<bool>,
    recheck: Recheck,
) -> (r: AutoUpdateAfterRecheck) where
    Recheck: FnOnce(&str, &str, &str) -> Option<(bool, String, String, String)>,

    requires
        cargo_install == Some(false) ==> call_requires(recheck, (owner, repo_name, base_dir)),
    ensures
        cargo_install != Some(false) ==> r is NotOldBeforeRecheck,
        cargo_install == Some(false) ==> exists|res: Option<(bool, String, String, String)>|
            call_ensures(recheck, (owner, repo_name, base_dir), res) && #[trigger] recheck_verdict(
                res,
                r,
            ),
{
    match cargo_install {
        Some(false) => {},
        _ => {
            return AutoUpdateAfterRecheck::NotOldBeforeRecheck;
        },
    }
    let res = recheck(owner, repo_name, base_dir);
    let ghost res_v = res;
    let r = match res {
        Some((false, installed_hash, _local_hash, remote_hash)) => AutoUpdateAfterRecheck::StillOld {
            installed_hash,
            remote_hash,
        },
        Some((true, installed_hash, _local_hash, remote_hash)) => AutoUpdateAfterRecheck::UpdatedDuringRecheck {
            installed_hash,
            remote_hash,
        },
        None => AutoUpdateAfterRecheck::RecheckFailed,
    };
    assert(recheck_verdict(res_v, r));
    r
}

/// The owner and name of this application's own repository.
pub open spec fn self_repo_owner() -> Seq<char> {
    "cat2151"@
}

/// The name of this application's own repository.
pub open spec fn self_repo_name() -> Seq<char> {
    "cat-repo-auditor"@
}

/// The owner of this application's own repository.
pub fn repo_owner() -> (r: &'static str)
    ensures
        r@ == self_repo_owner(),
{
    "cat2151"
}

/// The name of this application's own repository.
pub fn repo_name() -> (r: &'static str)
    ensures
        r@ == self_repo_name(),
{
    "cat-repo-auditor"
}

/// This application never updates itself while running: the repository is
/// its own when owner and name match, ignoring ASCII case.
pub fn should_skip_auto_update_for_repo(owner: &str, repo_name: &str) -> (r: bool)
    ensures
        r == (eq_ignore_ascii_case(owner@, self_repo_owner()) && eq_ignore_ascii_case(
            repo_name@,
            self_repo_name(),
        )),
{
    str_eq_ignore_ascii_case(owner, self::repo_owner()) && str_eq_ignore_ascii_case(
        repo_name,
        self::repo_name(),
    )
}

/// An update is started only for another repository whose install was old
/// and is still old on recheck.
pub fn should_spawn_auto_update_after_recheck<Recheck>(
    owner: &str,
    repo_name: &str,
    base_dir: &str,
    cargo_install: Option<bool>,
    recheck: Recheck,
) -> (r: bool) where
    Recheck: FnOnce(&str, &str, &str) -> Option<(bool, String, String, String)>,

    requires
        cargo_install == Some(false) && !(eq_ignore_ascii_case(owner@, self_repo_owner())
            && eq_ignore_ascii_case(repo_name@, self_repo_name())) ==> call_requires(
            recheck,
            (owner, repo_name, base_dir),
        ),
    ensures
        r ==> cargo_install == Some(false),
        r ==> !(eq_ignore_ascii_case(owner@, self_repo_owner()) && eq_ignore_ascii_case(
            repo_name@,
            self_repo_name(),
        )),
        cargo_install == Some(false) && !(eq_ignore_ascii_case(owner@, self_repo_owner())
            && eq_ignore_ascii_case(repo_name@, self_repo_name())) ==> exists|
            res: Option<(bool, String, String, String)>,
        |
            call_ensures(recheck, (owner, repo_name, base_dir), res) && #[trigger] spawn_wanted(res)
                == r,
{
    if should_skip_auto_update_for_repo(owner, repo_name) {
        return false;
    }
    let v = inspect_auto_update_after_recheck(owner, repo_name, base_dir, cargo_install, recheck);
    let r = match v {
        AutoUpdateAfterRecheck::StillOld { .. } => true,
        _ => false,
    };
    proof {
        if cargo_install == Some(false) {
            let res = choose|res: Option<(bool, String, String, String)>|
                call_ensures(recheck, (owner, repo_name, base_dir), res) && #[trigger] recheck_verdict(
                    res,
                    v,
                );
            assert(spawn_wanted(res) == r);
        }
    }
    r
}

/// A recheck result asks for an update: the install is still old.
pub open spec fn spawn_wanted(res: Option<(bool, String, String, String)>) -> bool {
    res matches Some((false, _, _, _))
}

/// Trimmed, non-empty lines of `ls`, in order.
pub open spec fn kept_lines(ls: Seq<Seq<char>>) -> Seq<Seq<char>>
    decreases ls.len(),
{
    if ls.len() == 0 {
        seq![]
    } else {
        let rest = kept_lines(ls.drop_last());
        if trim(ls.last()).len() > 0 {
            rest.push(trim(ls.last()))
        } else {
            rest
        }
    }
}

/// The parts joined with `sep` between them.
pub open spec fn joined(parts: Seq<Seq<char>>, sep: Seq<char>) -> Seq<char>
    decreases parts.len(),
{
    if parts.len() == 0 {
        seq![]
    } else if parts.len() == 1 {
        parts[0]
    } else {
        joined(parts.drop_last(), sep) + sep + parts.last()
    }
}

/// Command output on one line: the trimmed, non-empty lines joined by ` | `.
pub open spec fn compact_detail(detail: Seq<char>) -> Seq<char> {
    joined(kept_lines(lines(detail)), " | "@)
}

/// Command output on one line.
pub fn compact_log_detail(detail: &str) -> (r: String)
    ensures
        r@ == compact_detail(detail@),
{
    let chars = crate::text::chars_of(detail);
    let ls = lines_of(chars.as_slice());
    let ghost all = views(ls@);
    let mut out = String::new();
    let mut any = false;
    let mut i: usize = 0;
    while i < ls.len()
        invariant
            i <= ls@.len(),
            all == views(ls@),
            all == lines(detail@),
            out@ == joined(kept_lines(all.take(i as int)), " | "@),
            any == (kept_lines(all.take(i as int)).len() > 0),
        decreases ls@.len() - i,
    {
        let t = trim_chars(ls[i].as_slice());
        let ghost before = kept_lines(all.take(i as int));
        proof {
            assert(all.take(i + 1).drop_last() =~= all.take(i as int));
            assert(all.take(i + 1).last() == ls@[i as int]@);
        }
        if t.len() > 0 {
            if any {
                push_str(&mut out, " | ");
            }
            let ts = string_of(t.as_slice());
            push_str(&mut out, ts.as_str());
            any = true;
            proof {
                let after = before.push(t@);
                assert(kept_lines(all.take(i + 1)) == after);
                if before.len() == 0 {
                    assert(after =~= seq![t@]);
                } else {
                    assert(after.drop_last() =~= before);
                }
            }
        } else {
            assert(kept_lines(all.take(i + 1)) == before);
        }
        i += 1;
    }
    assert(all.take(ls@.len() as int) =~= all);
    out
}

/// The log line of one pull: the compacted output, `ok` when there is none,
/// or the compacted error.
pub open spec fn pull_log(repo_full_name: Seq<char>, result: Result<Seq<char>, Seq<char>>) -> Seq<
    char,
> {
    match result {
        Ok(output) => if compact_detail(output).len() == 0 {
            "pull "@ + repo_full_name + ": ok"@
        } else {
            "pull "@ + repo_full_name + ": "@ + compact_detail(output)
        },
        Err(err) => "pull "@ + repo_full_name + " failed: "@ + compact_detail(err),
    }
}

/// The log line of one pull; an error is given as its full message chain.
pub fn format_pull_log(repo_full_name: &str, pull_result: &Result<String, String>) -> (r: String)
    ensures
        r@ == pull_log(
            repo_full_name@,
            match pull_result {
                Ok(o) => Ok(o@),
                Err(e) => Err(e@),
            },
        ),
{
    let mut s = String::new();
    push_str(&mut s, "pull ");
    push_str(&mut s, repo_full_name);
    match pull_result {
        Ok(output) => {
            let detail = compact_log_detail(output.as_str());
            if detail.as_str().is_empty() {
                push_str(&mut s, ": ok");
            } else {
                push_str(&mut s, ": ");
                push_str(&mut s, detail.as_str());
            }
        },
        Err(err) => {
            push_str(&mut s, " failed: ");
            let detail = compact_log_detail(err.as_str());
            push_str(&mut s, detail.as_str());
        },
    }
    s
}

/// Some repository in `repos` is named `name`.
pub open spec fn has_repo_named(repos: Seq<RepoInfo>, name: Seq<char>) -> bool {
    exists|j: int| 0 <= j < repos.len() && (#[trigger] repos[j]).name@ == name
}

/// The repositories of `fetched` whose name is not among `cached`, in order.
pub open spec fn not_cached(fetched: Seq<RepoInfo>, cached: Seq<RepoInfo>) -> Seq<RepoInfo>
    decreases fetched.len(),
{
    if fetched.len() == 0 {
        seq![]
    } else {
        let rest = not_cached(fetched.drop_last(), cached);
        if has_repo_named(cached, fetched.last().name@) {
            rest
        } else {
            rest.push(fetched.last())
        }
    }
}

/// Whether some repository in `repos` is named `name`.
pub fn repos_contain_name(repos: &[RepoInfo], name: &str) -> (r: bool)
    ensures
        r == has_repo_named(repos@, name@),
{
    let mut i: usize = 0;
    while i < repos.len()
        invariant
            i <= repos@.len(),
            forall|j: int| 0 <= j < i ==> (#[trigger] repos@[j]).name@ != name@,
        decreases repos@.len() - i,
    {
        if str_eq(repos[i].name.as_str(), name) {
            return true;
        }
        i += 1;
    }
    false
}

/// The cargo checks run at startup and after the fetch: the cached
/// repositories first (all fetched ones when nothing is cached), then the
/// fetched repositories that were not cached.
pub fn split_startup_and_post_fetch_cargo_repos(
    cached_repos: &[RepoInfo],
    fetched_repos: &[RepoInfo],
) -> (r: (Vec<RepoInfo>, Vec<RepoInfo>))
    ensures
        cached_repos@.len() == 0 ==> r.0@.len() == 0 && same_repos(r.1@, fetched_repos@),
        cached_repos@.len() > 0 ==> same_repos(r.0@, cached_repos@) && same_repos(
            r.1@,
            not_cached(fetched_repos@, cached_repos@),
        ),
{
    if cached_repos.len() == 0 {
        return (Vec::new(), crate::types::copy_repos(fetched_repos));
    }
    let startup = crate::types::copy_repos(cached_repos);
    let mut post: Vec<RepoInfo> = Vec::new();
    let mut i: usize = 0;
    while i < fetched_repos.len()
        invariant
            i <= fetched_repos@.len(),
            same_repos(post@, not_cached(fetched_repos@.take(i as int), cached_repos@)),
        decreases fetched_repos@.len() - i,
    {
        proof {
            assert(fetched_repos@.take(i + 1).drop_last() =~= fetched_repos@.take(i as int));
        }
        if !repos_contain_name(cached_repos, fetched_repos[i].name.as_str()) {
            post.push(fetched_repos[i].duplicate());
        }
        i += 1;
    }
    assert(fetched_repos@.take(fetched_repos@.len() as int) =~= fetched_repos@);
    (startup, post)
}

/// Some string of `names` equals `name`.
pub open spec fn names_contain(names: Seq<String>, name: Seq<char>) -> bool {
    exists|j: int| 0 <= j < names.len() && (#[trigger] names[j])@ == name
}

/// Whether some string of `names` equals `name`.
pub fn strings_contain(names: &[String], name: &str) -> (r: bool)
    ensures
        r == names_contain(names@, name@),
{
    let mut i: usize = 0;
    while i < names.len()
        invariant
            i <= names@.len(),
            forall|j: int| 0 <= j < i ==> (#[trigger] names@[j])@ != name@,
        decreases names@.len() - i,
    {
        if str_eq(names[i].as_str(), name) {
            return true;
        }
        i += 1;
    }
    false
}

/// `new` is `old` with its local state replaced by what the two checks
/// returned for its name.
pub open spec fn refreshed_from<C, H>(
    old: RepoInfo,
    new: RepoInfo,
    base_dir: &str,
    check_local_status: C,
    local_head_hash: H,
) -> bool where
    C: Fn(&str, &str) -> (LocalStatus, bool, Vec<String>),
    H: Fn(&str, &str) -> String,
 {
    exists|s: &str, st: (LocalStatus, bool, Vec<String>), h: String|
        #![trigger call_ensures(check_local_status, (base_dir, s), st), call_ensures(local_head_hash, (base_dir, s), h)]
        s@ == old.name@ && call_ensures(check_local_status, (base_dir, s), st) && call_ensures(
            local_head_hash,
            (base_dir, s),
            h,
        ) && same_repo(
            new,
            RepoInfo {
                local_status: st.0,
                has_local_git: st.1,
                staging_files: st.2,
                local_head_hash: h,
                ..old
            },
        )
}

/// After a round of pulls, re-reads the local state of the pulled
/// repositories; the others are left as they are.
pub fn refresh_repos_after_auto_pull_with<C, H>(
    repos: &mut Vec<RepoInfo>,
    base_dir: &str,
    refreshed_repo_names: &[String],
    check_local_status: C,
    local_head_hash: H,
) where
    C: Fn(&str, &str) -> (LocalStatus, bool, Vec<String>),
    H: Fn(&str, &str) -> String,

    requires
        forall|a: &str, b: &str|
            a@ == base_dir@ && names_contain(refreshed_repo_names@, b@) ==> call_requires(
                check_local_status,
                (a, b),
            ),
        forall|a: &str, b: &str|
            a@ == base_dir@ && names_contain(refreshed_repo_names@, b@) ==> call_requires(
                local_head_hash,
                (a, b),
            ),
    ensures
        final(repos)@.len() == old(repos)@.len(),
        forall|k: int|
            0 <= k < old(repos)@.len() ==> if names_contain(
                refreshed_repo_names@,
                (#[trigger] old(repos)@[k]).name@,
            ) {
                refreshed_from(
                    old(repos)@[k],
                    final(repos)@[k],
                    base_dir,
                    check_local_status,
                    local_head_hash,
                )
            } else {
                final(repos)@[k] == old(repos)@[k]
            },
{
    let ghost orig = repos@;
    let mut i: usize = 0;
    while i < repos.len()
        invariant
            i <= repos@.len(),
            repos@.len() == orig.len(),
            forall|a: &str, b: &str|
                a@ == base_dir@ && names_contain(refreshed_repo_names@, b@) ==> call_requires(
                    check_local_status,
                    (a, b),
                ),
            forall|a: &str, b: &str|
                a@ == base_dir@ && names_contain(refreshed_repo_names@, b@) ==> call_requires(
                    local_head_hash,
                    (a, b),
                ),
            forall|k: int| i <= k < orig.len() ==> #[trigger] repos@[k] == orig[k],
            forall|k: int|
                0 <= k < i ==> if names_contain(refreshed_repo_names@, (#[trigger] orig[k]).name@) {
                    refreshed_from(
                        orig[k],
                        repos@[k],
                        base_dir,
                        check_local_status,
                        local_head_hash,
                    )
                } else {
                    repos@[k] == orig[k]
                },
        decreases orig.len() - i,
    {
        if strings_contain(refreshed_repo_names, repos[i].name.as_str()) {
            let name = repos[i].name.clone();
            let s: &str = name.as_str();
            let (local_status, has_local_git, staging_files) = check_local_status(base_dir, s);
            let head = local_head_hash(base_dir, s);
            let ghost st = (local_status, has_local_git, staging_files);
            let mut r = repos[i].duplicate();
            r.local_status = local_status;
            r.has_local_git = has_local_git;
            r.staging_files = staging_files;
            r.local_head_hash = head;
            proof {
                assert(call_ensures(check_local_status, (base_dir, s), st));
                assert(call_ensures(local_head_hash, (base_dir, s), head));
                assert(same_repo(
                    r,
                    RepoInfo {
                        local_status: st.0,
                        has_local_git: st.1,
                        staging_files: st.2,
                        local_head_hash: head,
                        ..orig[i as int]
                    },
                ));
            }
            repos.set(i, r);
        }
        i += 1;
    }
}

} // verus!
