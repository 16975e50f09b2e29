//! The per-repository checks that follow the fetch: the local clone's state,
//! and the README, Pages, DeepWiki and workflow checks, each re-run only
//! when what it was last checked against has changed.
use vstd::prelude::*;

use crate::cargo_git::CommandRun;
use crate::git_ops::local_head_hash_no_fetch;
use crate::git_status::check_local_status_no_fetch;
use crate::order::{key_views, sort_indices_stable, sorted_stable};
use crate::text::{push_str, str_eq};
use crate::types::{LocalStatus, RepoInfo, copy_strings, same_repo};
use crate::workflows::{
    check_deepwiki_exists, check_readme_ja_badge, check_workflows, is_readme_path, is_workflow_path, readme_outcome, workflows_outcome,
};
use crate::cargo_checks::{update_key_list, update_keys};
use crate::history::{History, find_first_named, first_named};

verus! {

broadcast use vstd::function::group_function_axioms;

/// What the checks of one repository found.
pub struct Phase3RepoResult {
    pub name: String,
    pub local_status: LocalStatus,
    pub has_local_git: bool,
    pub staging_files: Vec<String>,
    pub local_head_hash: String,
    pub readme_ja: Option<bool>,
    pub readme_ja_cat: String,
    pub readme_ja_badge: Option<bool>,
    pub readme_ja_badge_cat: String,
    pub pages: Option<bool>,
    pub pages_cat: String,
    pub deepwiki: Option<bool>,
    pub deepwiki_cat: String,
    pub wf_workflows: Option<bool>,
    pub wf_cat: String,
}

/// The repositories to check, most recently pushed first (stable).
pub fn build_phase3_tasks(repos: &[RepoInfo]) -> (r: Vec<RepoInfo>)
    ensures
        exists|perm: Seq<int>|
            #![trigger sorted_stable(update_keys(repos@), perm)]
            sorted_stable(update_keys(repos@), perm) && r@.len() == repos@.len() && forall|
                k: int,
            |
                0 <= k < r@.len() ==> same_repo(#[trigger] r@[k], repos@[perm[k]]),
{
    let keys = update_key_list(repos);
    let perm = sort_indices_stable(&keys);
    let ghost pv = perm@.map_values(|i: usize| i as int);
    let mut r: Vec<RepoInfo> = Vec::new();
    let mut k: usize = 0;
    while k < perm.len()
        invariant
            k <= perm@.len(),
            perm@.len() == repos@.len(),
            pv == perm@.map_values(|i: usize| i as int),
            sorted_stable(update_keys(repos@), pv),
            r@.len() == k,
            forall|j: int| 0 <= j < k ==> same_repo(#[trigger] r@[j], repos@[pv[j]]),
        decreases perm@.len() - k,
    {
        assert(pv[k as int] == perm@[k as int] as int);
        r.push(repos[perm[k]].duplicate());
        k += 1;
    }
    r
}

/// How many workers check `total_check` repositories: one per core as
/// reported (four when unknown), never more than there is work.
pub fn phase3_worker_count(total_check: usize, parallelism: Option<usize>) -> (r: usize)
    ensures
        r == match parallelism {
            Some(p) => if p < total_check {
                p
            } else {
                total_check
            },
            None => if 4 < total_check {
                4
            } else {
                total_check
            },
        },
{
    let p = match parallelism {
        Some(p) => p,
        None => 4,
    };
    if p < total_check {
        p
    } else {
        total_check
    }
}

/// `new` is `old` with the checks' findings written in.
pub open spec fn phase3_applied(old: RepoInfo, new: RepoInfo, res: Phase3RepoResult) -> bool {
    same_repo(
        new,
        RepoInfo {
            local_status: res.local_status,
            has_local_git: res.has_local_git,
            staging_files: res.staging_files,
            local_head_hash: res.local_head_hash,
            readme_ja: res.readme_ja,
            readme_ja_checked_at: res.readme_ja_cat,
            readme_ja_badge: res.readme_ja_badge,
            readme_ja_badge_checked_at: res.readme_ja_badge_cat,
            pages: res.pages,
            pages_checked_at: res.pages_cat,
            deepwiki: res.deepwiki,
            deepwiki_checked_at: res.deepwiki_cat,
            wf_workflows: res.wf_workflows,
            wf_checked_at: res.wf_cat,
            ..old
        },
    )
}

/// Writes the checks' findings into `repo`.
pub fn apply_phase3_result(repo: &mut RepoInfo, result: &Phase3RepoResult)
    ensures
        phase3_applied(*old(repo), *final(repo), *result),
{
    repo.local_status = result.local_status.duplicate();
    repo.has_local_git = result.has_local_git;
    repo.staging_files = copy_strings(&result.staging_files);
    repo.local_head_hash = result.local_head_hash.clone();
    repo.readme_ja = result.readme_ja;
    repo.readme_ja_checked_at = result.readme_ja_cat.clone();
    repo.readme_ja_badge = result.readme_ja_badge;
    repo.readme_ja_badge_checked_at = result.readme_ja_badge_cat.clone();
    repo.pages = result.pages;
    repo.pages_checked_at = result.pages_cat.clone();
    repo.deepwiki = result.deepwiki;
    repo.deepwiki_checked_at = result.deepwiki_cat.clone();
    repo.wf_workflows = result.wf_workflows;
    repo.wf_checked_at = result.wf_cat.clone();
}

/// The other checks' findings of `r` are those cached in `repo`.
pub open spec fn keeps_cached_checks(repo: RepoInfo, r: Phase3RepoResult) -> bool {
    &&& r.readme_ja == repo.readme_ja
    &&& r.readme_ja_cat@ == repo.readme_ja_checked_at@
    &&& r.readme_ja_badge == repo.readme_ja_badge
    &&& r.readme_ja_badge_cat@ == repo.readme_ja_badge_checked_at@
    &&& r.pages == repo.pages
    &&& r.pages_cat@ == repo.pages_checked_at@
    &&& r.deepwiki == repo.deepwiki
    &&& r.deepwiki_cat@ == repo.deepwiki_checked_at@
    &&& r.wf_workflows == repo.wf_workflows
    &&& r.wf_cat@ == repo.wf_checked_at@
}

/// Re-reads the local state of a clone; the other findings stay as cached.
pub fn run_local_repo_task<E, G>(repo: RepoInfo, base_dir: &str, path_exists: &E, run_git: &mut G) -> (r:
    Phase3RepoResult) where E: Fn(&str) -> bool, G: FnMut(&str, &Vec<String>) -> Result<CommandRun, String>
    requires
        forall|p: &str| call_requires(*path_exists, (p,)),
        forall|p: &str, a: &Vec<String>| call_requires(*old(run_git), (p, a)),
    ensures
        *final(run_git) == *old(run_git),
        r.name@ == repo.name@,
        keeps_cached_checks(repo, r),
        !r.has_local_git ==> r.local_head_hash@.len() == 0,
{
    let name = repo.name.clone();
    let (local_status, has_local_git, staging_files) = check_local_status_no_fetch(
        base_dir,
        name.as_str(),
        path_exists,
        run_git,
    );
    let local_head_hash = if has_local_git {
        local_head_hash_no_fetch(base_dir, name.as_str(), path_exists, run_git)
    } else {
        String::new()
    };
    Phase3RepoResult {
        name,
        local_status,
        has_local_git,
        staging_files,
        local_head_hash,
        readme_ja: repo.readme_ja,
        readme_ja_cat: repo.readme_ja_checked_at,
        readme_ja_badge: repo.readme_ja_badge,
        readme_ja_badge_cat: repo.readme_ja_badge_checked_at,
        pages: repo.pages,
        pages_cat: repo.pages_checked_at,
        deepwiki: repo.deepwiki,
        deepwiki_cat: repo.deepwiki_checked_at,
        wf_workflows: repo.wf_workflows,
        wf_cat: repo.wf_checked_at,
    }
}

/// `/repos/<owner>/<repo>/contents/<path>`.
pub open spec fn contents_endpoint(owner: Seq<char>, repo: Seq<char>, path: Seq<char>) -> Seq<char> {
    "/repos/"@ + owner + "/"@ + repo + "/contents/"@ + path
}

/// `/repos/<owner>/<repo>/pages`.
pub open spec fn pages_endpoint(owner: Seq<char>, repo: Seq<char>) -> Seq<char> {
    "/repos/"@ + owner + "/"@ + repo + "/pages"@
}

/// `gh_api_ok` answered `b` for `endpoint`.
pub open spec fn api_answered<A: Fn(&str) -> bool>(gh_api_ok: A, endpoint: Seq<char>, b: bool) -> bool {
    exists|e: &str| e@ == endpoint && #[trigger] call_ensures(gh_api_ok, (e,), b)
}

/// Whether `path` exists on the default branch of `owner/repo`
/// (`gh_api_ok` tells whether `gh api <endpoint>` succeeds).
pub fn check_file_exists<A: Fn(&str) -> bool>(owner: &str, repo: &str, path: &str, gh_api_ok: &A) -> (r:
    bool)
    requires
        forall|e: &str|
            e@ == contents_endpoint(owner@, repo@, path@) ==> call_requires(*gh_api_ok, (e,)),
    ensures
        api_answered(*gh_api_ok, contents_endpoint(owner@, repo@, path@), r),
{
    let mut e = String::new();
    push_str(&mut e, "/repos/");
    push_str(&mut e, owner);
    push_str(&mut e, "/");
    push_str(&mut e, repo);
    push_str(&mut e, "/contents/");
    push_str(&mut e, path);
    assert(e@ =~= contents_endpoint(owner@, repo@, path@));
    let es: &str = e.as_str();
    let r = gh_api_ok(es);
    assert(call_ensures(*gh_api_ok, (es,), r));
    r
}

/// Whether GitHub Pages is enabled for `owner/repo`.
pub fn check_pages_exists<A: Fn(&str) -> bool>(owner: &str, repo: &str, gh_api_ok: &A) -> (r: bool)
    requires
        forall|e: &str| e@ == pages_endpoint(owner@, repo@) ==> call_requires(*gh_api_ok, (e,)),
    ensures
        api_answered(*gh_api_ok, pages_endpoint(owner@, repo@), r),
{
    let mut e = String::new();
    push_str(&mut e, "/repos/");
    push_str(&mut e, owner);
    push_str(&mut e, "/");
    push_str(&mut e, repo);
    push_str(&mut e, "/pages");
    assert(e@ =~= pages_endpoint(owner@, repo@));
    let es: &str = e.as_str();
    let r = gh_api_ok(es);
    assert(call_ensures(*gh_api_ok, (es,), r));
    r
}

/// One finding: re-checked (`Some` of the check, stamped with `stamp`) when
/// the cached stamp differs, else kept.
pub open spec fn refreshed(
    needs: bool,
    cached: Option<bool>,
    cached_stamp: Seq<char>,
    stamp: Seq<char>,
    r: Option<bool>,
    r_stamp: Seq<char>,
) -> bool {
    if needs {
        r is Some && r_stamp == stamp
    } else {
        r == cached && r_stamp == cached_stamp
    }
}

/// Runs the checks of one repository that are due: README.ja.md and Pages
/// when the repository was pushed since they were checked, the README badge,
/// DeepWiki link and workflows when the local HEAD changed; the others keep
/// their cached findings.  The local state is the one already known.
pub fn run_phase3_repo_task<A, F, E>(
    repo: RepoInfo,
    owner: &str,
    base_dir: &str,
    gh_api_ok: &A,
    read_file: &F,
    path_exists: &E,
) -> (r: Phase3RepoResult) where
    A: Fn(&str) -> bool,
    F: Fn(&str) -> Option<String>,
    E: Fn(&str) -> bool,

    requires
        repo.readme_ja_checked_at@ != repo.updated_at_raw@ ==> forall|e: &str|
            e@ == contents_endpoint(owner@, repo.name@, "README.ja.md"@) ==> call_requires(
                *gh_api_ok,
                (e,),
            ),
        repo.pages_checked_at@ != repo.updated_at_raw@ ==> forall|e: &str|
            e@ == pages_endpoint(owner@, repo.name@) ==> call_requires(*gh_api_ok, (e,)),
        repo.readme_ja_badge_checked_at@ != repo.local_head_hash@ || repo.deepwiki_checked_at@
            != repo.local_head_hash@ ==> forall|p: &str|
            is_readme_path(base_dir@, repo.name@, p@) ==> call_requires(*read_file, (p,)),
        repo.wf_checked_at@ != repo.local_head_hash@ ==> forall|p: &str|
            is_workflow_path(base_dir@, repo.name@, repo.cargo_install, p@) ==> call_requires(
                *path_exists,
                (p,),
            ),
    ensures
        r.name@ == repo.name@,
        r.local_status == repo.local_status,
        r.has_local_git == repo.has_local_git,
        r.staging_files@ == repo.staging_files@,
        r.local_head_hash@ == repo.local_head_hash@,
        refreshed(
            repo.readme_ja_checked_at@ != repo.updated_at_raw@,
            repo.readme_ja,
            repo.readme_ja_checked_at@,
            repo.updated_at_raw@,
            r.readme_ja,
            r.readme_ja_cat@,
        ),
        repo.readme_ja_checked_at@ != repo.updated_at_raw@ ==> api_answered(
            *gh_api_ok,
            contents_endpoint(owner@, repo.name@, "README.ja.md"@),
            r.readme_ja->Some_0,
        ),
        refreshed(
            repo.pages_checked_at@ != repo.updated_at_raw@,
            repo.pages,
            repo.pages_checked_at@,
            repo.updated_at_raw@,
            r.pages,
            r.pages_cat@,
        ),
        repo.pages_checked_at@ != repo.updated_at_raw@ ==> api_answered(
            *gh_api_ok,
            pages_endpoint(owner@, repo.name@),
            r.pages->Some_0,
        ),
        refreshed(
            repo.readme_ja_badge_checked_at@ != repo.local_head_hash@,
            repo.readme_ja_badge,
            repo.readme_ja_badge_checked_at@,
            repo.local_head_hash@,
            r.readme_ja_badge,
            r.readme_ja_badge_cat@,
        ),
        repo.readme_ja_badge_checked_at@ != repo.local_head_hash@ ==> readme_outcome(
            *read_file,
            base_dir@,
            repo.name@,
            "README.ja.md"@,
            r.readme_ja_badge->Some_0,
        ),
        refreshed(
            repo.deepwiki_checked_at@ != repo.local_head_hash@,
            repo.deepwiki,
            repo.deepwiki_checked_at@,
            repo.local_head_hash@,
            r.deepwiki,
            r.deepwiki_cat@,
        ),
        repo.deepwiki_checked_at@ != repo.local_head_hash@ ==> readme_outcome(
            *read_file,
            base_dir@,
            repo.name@,
            "deepwiki.com"@,
            r.deepwiki->Some_0,
        ),
        refreshed(
            repo.wf_checked_at@ != repo.local_head_hash@,
            repo.wf_workflows,
            repo.wf_checked_at@,
            repo.local_head_hash@,
            r.wf_workflows,
            r.wf_cat@,
        ),
        repo.wf_checked_at@ != repo.local_head_hash@ ==> workflows_outcome(
            *path_exists,
            base_dir@,
            repo.name@,
            repo.cargo_install,
            r.wf_workflows->Some_0,
        ),
{
    let name = repo.name.as_str();
    let cat = repo.updated_at_raw.as_str();
    let local_head = repo.local_head_hash.as_str();

    let (readme_ja, readme_ja_cat) = if !str_eq(repo.readme_ja_checked_at.as_str(), cat) {
        (Some(check_file_exists(owner, name, "README.ja.md", gh_api_ok)), cat.to_owned())
    } else {
        (repo.readme_ja, repo.readme_ja_checked_at.clone())
    };
    let (readme_ja_badge, readme_ja_badge_cat) = if !str_eq(
        repo.readme_ja_badge_checked_at.as_str(),
        local_head,
    ) {
        (Some(check_readme_ja_badge(base_dir, name, read_file)), local_head.to_owned())
    } else {
        (repo.readme_ja_badge, repo.readme_ja_badge_checked_at.clone())
    };
    let (pages, pages_cat) = if !str_eq(repo.pages_checked_at.as_str(), cat) {
        (Some(check_pages_exists(owner, name, gh_api_ok)), cat.to_owned())
    } else {
        (repo.pages, repo.pages_checked_at.clone())
    };
    let (deepwiki, deepwiki_cat) = if !str_eq(repo.deepwiki_checked_at.as_str(), local_head) {
        (Some(check_deepwiki_exists(base_dir, name, read_file)), local_head.to_owned())
    } else {
        (repo.deepwiki, repo.deepwiki_checked_at.clone())
    };
    let (wf_workflows, wf_cat) = if !str_eq(repo.wf_checked_at.as_str(), local_head) {
        (Some(check_workflows(base_dir, name, repo.cargo_install, path_exists)), local_head.to_owned())
    } else {
        (repo.wf_workflows, repo.wf_checked_at.clone())
    };
    let r = Phase3RepoResult {
        name: repo.name.clone(),
        local_status: repo.local_status.duplicate(),
        has_local_git: repo.has_local_git,
        staging_files: copy_strings(&repo.staging_files),
        local_head_hash: repo.local_head_hash.clone(),
        readme_ja,
        readme_ja_cat,
        readme_ja_badge,
        readme_ja_badge_cat,
        pages,
        pages_cat,
        deepwiki,
        deepwiki_cat,
        wf_workflows,
        wf_cat,
    };
    r
}

/// `new` is `old` with the findings of `r` written into its first
/// repository named like `r` (nothing changes when there is none).
pub open spec fn phase3_merged(old: History, new: History, r: Phase3RepoResult) -> bool {
    let i = first_named(old.repos@, r.name@);
    &&& new.etags == old.etags
    &&& new.rate_limit == old.rate_limit
    &&& new.repos@.len() == old.repos@.len()
    &&& forall|k: int|
        0 <= k < old.repos@.len() && k != i ==> #[trigger] new.repos@[k] == old.repos@[k]
    &&& 0 <= i ==> phase3_applied(old.repos@[i], new.repos@[i], r)
}

/// Writes the checks' findings into the cached repository of that name.
pub fn apply_phase3_result_to_history(history: &mut History, result: &Phase3RepoResult)
    ensures
        phase3_merged(*old(history), *final(history), *result),
{
    match find_first_named(&history.repos, result.name.as_str()) {
        Some(i) => {
            let mut r = history.repos[i].duplicate();
            apply_phase3_result(&mut r, result);
            history.repos.set(i, r);
        },
        None => {},
    }
}

} // verus!
