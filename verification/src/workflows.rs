//! Which repositories carry which reusable workflow callers, and whether a
//! clone has the workflows every repository is expected to have.
use vstd::prelude::*;

use crate::git_status::{repo_path, trim_separators};
use crate::order::{SortKey, key_view, key_views, sort_indices_stable, sorted_stable};
use crate::text::{chars_of, contains, ends_with, push_str, starts_with, starts_with_chars,
    ends_with_chars, str_contains, str_eq, string_of};
use crate::types::RepoInfo;

verus! {

broadcast use vstd::function::group_function_axioms;

/// A repository as listed in the workflow overview.
#[derive(Debug, Clone, PartialEq, Eq)]
pub struct WorkflowRepoExistRepo {
    pub name: String,
    pub updated_at: String,
    pub updated_at_raw: String,
}

/// One workflow file and the repositories that have it or lack it.
#[derive(Debug, Clone, PartialEq, Eq)]
pub struct WorkflowRepoExistCheck {
    pub workflow_file: String,
    pub installed_repos: Vec<WorkflowRepoExistRepo>,
    pub missing_repos: Vec<WorkflowRepoExistRepo>,
}

/// The repository that holds the reusable workflow definitions.
pub open spec fn workflow_source_repo() -> Seq<char> {
    "github-actions"@
}

/// The file names of reusable workflow callers start with this.
pub open spec fn call_workflow_prefix() -> Seq<char> {
    "call-"@
}

/// The workflow callers every repository is expected to have.
pub open spec fn required_workflows() -> Seq<Seq<char>> {
    seq!["call-translate-readme.yml"@, "call-issue-note.yml"@, "call-check-large-files.yml"@]
}

/// The workflow caller a cargo-installed repository is expected to have too.
pub open spec fn rust_cargo_check_workflow() -> Seq<char> {
    "call-rust-windows-cargo-check.yml"@
}

/// `<base>/<repo>/.github/workflows`.
pub open spec fn workflows_dir(base_dir: Seq<char>, repo: Seq<char>) -> Seq<char> {
    repo_path(base_dir, repo) + "/.github/workflows"@
}

/// `<base>/<repo>/.github/workflows/<file>`.
pub open spec fn workflow_path(base_dir: Seq<char>, repo: Seq<char>, file: Seq<char>) -> Seq<char> {
    workflows_dir(base_dir, repo) + "/"@ + file
}

/// The workflow files asked for: the required ones, and the cargo check
/// caller when the repository is cargo-installed (checked or not).
pub open spec fn expected_workflows(cargo_install: Option<bool>) -> Seq<Seq<char>> {
    if cargo_install is Some {
        required_workflows().push(rust_cargo_check_workflow())
    } else {
        required_workflows()
    }
}

/// `path_exists` reported `path` as present (`b`).
pub open spec fn reported<E: Fn(&str) -> bool>(path_exists: E, path: Seq<char>, b: bool) -> bool {
    exists|p: &str| p@ == path && #[trigger] call_ensures(path_exists, (p,), b)
}

/// `path` is that of one of the workflow files asked for.
pub open spec fn is_workflow_path(
    base_dir: Seq<char>,
    repo_name: Seq<char>,
    cargo_install: Option<bool>,
    path: Seq<char>,
) -> bool {
    exists|i: int|
        0 <= i < expected_workflows(cargo_install).len() && path == workflow_path(
            base_dir,
            repo_name,
            #[trigger] expected_workflows(cargo_install)[i],
        )
}

/// `path` is that of `README.ja.md` or `README.md` of the clone.
pub open spec fn is_readme_path(base_dir: Seq<char>, repo_name: Seq<char>, path: Seq<char>) -> bool {
    path == repo_file_path(base_dir, repo_name, "README.ja.md"@) || path == repo_file_path(
        base_dir,
        repo_name,
        "README.md"@,
    )
}

/// The path of one workflow file of a clone.
fn workflow_file_path(base_dir: &str, repo_name: &str, file: &str) -> (r: String)
    ensures
        r@ == workflow_path(base_dir@, repo_name@, file@),
{
    let mut s = crate::git_status::build_repo_path(base_dir, repo_name);
    push_str(&mut s, "/.github/workflows");
    push_str(&mut s, "/");
    push_str(&mut s, file);
    assert(s@ =~= workflow_path(base_dir@, repo_name@, file@));
    s
}

/// Whether the clone of `repo_name` has every expected workflow caller:
/// all are reported present, or some is reported missing (the files after
/// the first missing one are not asked for).
pub fn check_workflows<E: Fn(&str) -> bool>(
    base_dir: &str,
    repo_name: &str,
    cargo_install: Option<bool>,
    path_exists: &E,
) -> (r: bool)
    requires
        forall|p: &str|
            is_workflow_path(base_dir@, repo_name@, cargo_install, p@) ==> call_requires(
                *path_exists,
                (p,),
            ),
    ensures
        workflows_outcome(*path_exists, base_dir@, repo_name@, cargo_install, r),
        r ==> reported(
            *path_exists,
            workflow_path(base_dir@, repo_name@, "call-translate-readme.yml"@),
            true,
        ),
        r ==> reported(
            *path_exists,
            workflow_path(base_dir@, repo_name@, "call-issue-note.yml"@),
            true,
        ),
        r ==> reported(
            *path_exists,
            workflow_path(base_dir@, repo_name@, "call-check-large-files.yml"@),
            true,
        ),
        r && cargo_install is Some ==> reported(
            *path_exists,
            workflow_path(base_dir@, repo_name@, "call-rust-windows-cargo-check.yml"@),
            true,
        ),
{
    let mut files: Vec<&str> = Vec::new();
    files.push("call-translate-readme.yml");
    files.push("call-issue-note.yml");
    files.push("call-check-large-files.yml");
    if cargo_install.is_some() {
        files.push("call-rust-windows-cargo-check.yml");
    }
    let ghost ew = expected_workflows(cargo_install);
    assert(files@.map_values(|f: &str| f@) =~= ew);
    let mut i: usize = 0;
    while i < files.len()
        invariant
            i <= files@.len(),
            files@.map_values(|f: &str| f@) == ew,
            ew == expected_workflows(cargo_install),
            forall|p: &str|
                is_workflow_path(base_dir@, repo_name@, cargo_install, p@) ==> call_requires(
                    *path_exists,
                    (p,),
                ),
            forall|k: int|
                0 <= k < i ==> reported(
                    *path_exists,
                    workflow_path(base_dir@, repo_name@, #[trigger] ew[k]),
                    true,
                ),
        decreases files@.len() - i,
    {
        let path = workflow_file_path(base_dir, repo_name, files[i]);
        let p: &str = path.as_str();
        assert(ew[i as int] == files@[i as int]@);
        assert(is_workflow_path(base_dir@, repo_name@, cargo_install, p@));
        let present = path_exists(p);
        assert(call_ensures(*path_exists, (p,), present));
        if !present {
            assert(reported(*path_exists, workflow_path(base_dir@, repo_name@, ew[i as int]), false));
            return false;
        }
        assert(reported(*path_exists, workflow_path(base_dir@, repo_name@, ew[i as int]), true));
        i += 1;
    }
    proof {
        law_complete_clone_has_required_workflows(
            *path_exists,
            base_dir@,
            repo_name@,
            cargo_install,
        );
    }
    true
}

/// A clone is reported complete only when each required workflow caller
/// (`call-translate-readme.yml`, `call-issue-note.yml`,
/// `call-check-large-files.yml`, and `call-rust-windows-cargo-check.yml`
/// for a cargo-installed repository) was reported present under
/// `<base>/<repo>/.github/workflows`.
pub proof fn law_complete_clone_has_required_workflows<E: Fn(&str) -> bool>(
    path_exists: E,
    base_dir: Seq<char>,
    repo_name: Seq<char>,
    cargo_install: Option<bool>,
)
    ensures
        workflows_outcome(path_exists, base_dir, repo_name, cargo_install, true) ==> {
            &&& reported(
                path_exists,
                workflow_path(base_dir, repo_name, "call-translate-readme.yml"@),
                true,
            )
            &&& reported(path_exists, workflow_path(base_dir, repo_name, "call-issue-note.yml"@), true)
            &&& reported(
                path_exists,
                workflow_path(base_dir, repo_name, "call-check-large-files.yml"@),
                true,
            )
            &&& cargo_install is Some ==> reported(
                path_exists,
                workflow_path(base_dir, repo_name, "call-rust-windows-cargo-check.yml"@),
                true,
            )
        },
{
    let ew = expected_workflows(cargo_install);
    assert(ew[0] == "call-translate-readme.yml"@);
    assert(ew[1] == "call-issue-note.yml"@);
    assert(ew[2] == "call-check-large-files.yml"@);
    if cargo_install is Some {
        assert(ew[3] == "call-rust-windows-cargo-check.yml"@);
    }
}

/// `<base>/<repo>/<file>`.
pub open spec fn repo_file_path(base_dir: Seq<char>, repo: Seq<char>, file: Seq<char>) -> Seq<char> {
    repo_path(base_dir, repo) + "/"@ + file
}

/// `read_file` gave `content` for `path`.
pub open spec fn read_as<F: Fn(&str) -> Option<String>>(read_file: F, path: Seq<char>, content: Option<String>) -> bool {
    exists|p: &str| p@ == path && #[trigger] call_ensures(read_file, (p,), content)
}

/// A README that was read mentions `needle`.
pub open spec fn mentions(content: Option<String>, needle: Seq<char>) -> bool {
    content matches Some(c) && contains(c@, needle)
}

/// What reading the READMEs of a clone for `needle` gives: `README.ja.md`
/// is read first and, unless it mentions `needle`, `README.md` decides.
pub open spec fn readme_outcome<F: Fn(&str) -> Option<String>>(
    read_file: F,
    base_dir: Seq<char>,
    repo_name: Seq<char>,
    needle: Seq<char>,
    r: bool,
) -> bool {
    exists|ja: Option<String>|
        #![trigger read_as(read_file, repo_file_path(base_dir, repo_name, "README.ja.md"@), ja)]
        read_as(read_file, repo_file_path(base_dir, repo_name, "README.ja.md"@), ja) && if mentions(
            ja,
            needle,
        ) {
            r
        } else {
            exists|md: Option<String>|
                #![trigger read_as(read_file, repo_file_path(base_dir, repo_name, "README.md"@), md)]
                read_as(read_file, repo_file_path(base_dir, repo_name, "README.md"@), md) && r
                    == mentions(md, needle)
        }
}

/// What asking for the expected workflow files gives: all present, or some
/// reported missing.
pub open spec fn workflows_outcome<E: Fn(&str) -> bool>(
    path_exists: E,
    base_dir: Seq<char>,
    repo_name: Seq<char>,
    cargo_install: Option<bool>,
    r: bool,
) -> bool {
    &&& r ==> forall|i: int|
        0 <= i < expected_workflows(cargo_install).len() ==> reported(
            path_exists,
            workflow_path(base_dir, repo_name, #[trigger] expected_workflows(cargo_install)[i]),
            true,
        )
    &&& !r ==> exists|i: int|
        0 <= i < expected_workflows(cargo_install).len() && reported(
            path_exists,
            workflow_path(base_dir, repo_name, #[trigger] expected_workflows(cargo_install)[i]),
            false,
        )
}

/// Whether `README.ja.md`, else `README.md`, of the clone mentions `needle`
/// (`read_file` reads a file, `None` when it cannot).
pub fn readme_mentions<F: Fn(&str) -> Option<String>>(
    base_dir: &str,
    repo_name: &str,
    needle: &str,
    read_file: &F,
) -> (r: bool)
    requires
        forall|p: &str| is_readme_path(base_dir@, repo_name@, p@) ==> call_requires(*read_file, (p,)),
    ensures
        readme_outcome(*read_file, base_dir@, repo_name@, needle@, r),
{
    let mut ja_path = crate::git_status::build_repo_path(base_dir, repo_name);
    push_str(&mut ja_path, "/");
    push_str(&mut ja_path, "README.ja.md");
    assert(ja_path@ =~= repo_file_path(base_dir@, repo_name@, "README.ja.md"@));
    let p1: &str = ja_path.as_str();
    let ja = read_file(p1);
    let ghost ja_v = ja;
    assert(read_as(*read_file, repo_file_path(base_dir@, repo_name@, "README.ja.md"@), ja_v));
    match &ja {
        Some(c) => {
            if str_contains(c.as_str(), needle) {
                return true;
            }
        },
        None => {},
    }
    let mut md_path = crate::git_status::build_repo_path(base_dir, repo_name);
    push_str(&mut md_path, "/");
    push_str(&mut md_path, "README.md");
    assert(md_path@ =~= repo_file_path(base_dir@, repo_name@, "README.md"@));
    let p2: &str = md_path.as_str();
    let md = read_file(p2);
    let ghost md_v = md;
    assert(read_as(*read_file, repo_file_path(base_dir@, repo_name@, "README.md"@), md_v));
    let r = match &md {
        Some(c) => str_contains(c.as_str(), needle),
        None => false,
    };
    assert(r == mentions(md_v, needle@));
    r
}

/// Whether a README of the clone links DeepWiki.
pub fn check_deepwiki_exists<F: Fn(&str) -> Option<String>>(
    base_dir: &str,
    repo_name: &str,
    read_file: &F,
) -> (r: bool)
    requires
        forall|p: &str| is_readme_path(base_dir@, repo_name@, p@) ==> call_requires(*read_file, (p,)),
    ensures
        readme_outcome(*read_file, base_dir@, repo_name@, "deepwiki.com"@, r),
{
    readme_mentions(base_dir, repo_name, "deepwiki.com", read_file)
}

/// Whether a README of the clone links the Japanese README.
pub fn check_readme_ja_badge<F: Fn(&str) -> Option<String>>(
    base_dir: &str,
    repo_name: &str,
    read_file: &F,
) -> (r: bool)
    requires
        forall|p: &str| is_readme_path(base_dir@, repo_name@, p@) ==> call_requires(*read_file, (p,)),
    ensures
        readme_outcome(*read_file, base_dir@, repo_name@, "README.ja.md"@, r),
{
    readme_mentions(base_dir, repo_name, "README.ja.md", read_file)
}

/// A reusable workflow caller: `call-*.yml` or `call-*.yaml`.
pub open spec fn is_call_workflow(name: Seq<char>) -> bool {
    starts_with(name, call_workflow_prefix()) && (ends_with(name, ".yml"@) || ends_with(
        name,
        ".yaml"@,
    ))
}

/// Whether the file name is a reusable workflow caller.
pub fn is_call_workflow_name(name: &str) -> (r: bool)
    ensures
        r == is_call_workflow(name@),
{
    let n = chars_of(name);
    let prefix = chars_of("call-");
    let yml = chars_of(".yml");
    let yaml = chars_of(".yaml");
    starts_with_chars(n.as_slice(), prefix.as_slice()) && (ends_with_chars(
        n.as_slice(),
        yml.as_slice(),
    ) || ends_with_chars(n.as_slice(), yaml.as_slice()))
}

/// One entry of a directory: its name (`None` when it is not valid
/// UTF-8) and whether it is a regular file.
pub struct FileEntry {
    pub name: Option<String>,
    pub is_file: bool,
}

/// The names of the reusable workflow callers among `entries`, in order.
pub open spec fn call_workflow_names(entries: Seq<FileEntry>) -> Seq<Seq<char>>
    decreases entries.len(),
{
    if entries.len() == 0 {
        seq![]
    } else {
        let prev = call_workflow_names(entries.drop_last());
        let e = entries.last();
        match e.name {
            Some(n) => if e.is_file && is_call_workflow(n@) {
                prev.push(n@)
            } else {
                prev
            },
            None => prev,
        }
    }
}

/// A listed repository: name, relative date, push time.
pub open spec fn listed_view(r: WorkflowRepoExistRepo) -> (Seq<char>, Seq<char>, Seq<char>) {
    (r.name@, r.updated_at@, r.updated_at_raw@)
}

/// The cloned repositories other than the workflow source, in order.
pub open spec fn local_repo_views(repos: Seq<RepoInfo>) -> Seq<(Seq<char>, Seq<char>, Seq<char>)>
    decreases repos.len(),
{
    if repos.len() == 0 {
        seq![]
    } else {
        let prev = local_repo_views(repos.drop_last());
        let r = repos.last();
        if r.has_local_git && r.name@ != workflow_source_repo() {
            prev.push((r.name@, r.updated_at@, r.updated_at_raw@))
        } else {
            prev
        }
    }
}

/// Workflow files are listed by name.
pub open spec fn name_keys(names: Seq<Seq<char>>) -> Seq<(int, Seq<char>, Seq<char>)> {
    names.map_values(|n: Seq<char>| (0int, Seq::<char>::empty(), n))
}

/// Repositories are listed most recently pushed first, then by name.
pub open spec fn listed_keys(rs: Seq<(Seq<char>, Seq<char>, Seq<char>)>) -> Seq<(int, Seq<char>, Seq<char>)> {
    rs.map_values(|r: (Seq<char>, Seq<char>, Seq<char>)| (0int, r.2, r.0))
}

/// The items of `rs` whose flag is `want`, in order.
pub open spec fn select(
    rs: Seq<(Seq<char>, Seq<char>, Seq<char>)>,
    flags: Seq<bool>,
    want: bool,
) -> Seq<(Seq<char>, Seq<char>, Seq<char>)>
    decreases rs.len(),
{
    if rs.len() == 0 || flags.len() != rs.len() {
        seq![]
    } else {
        let prev = select(rs.drop_last(), flags.drop_last(), want);
        if flags.last() == want {
            prev.push(rs.last())
        } else {
            prev
        }
    }
}

/// `check` lists, for `file`, the repositories of `sorted` reported to have
/// it, then those reported to lack it, each in order.
pub open spec fn split_by_presence<E: Fn(&str) -> bool>(
    path_exists: E,
    base_dir: Seq<char>,
    file: Seq<char>,
    sorted: Seq<(Seq<char>, Seq<char>, Seq<char>)>,
    check: WorkflowRepoExistCheck,
) -> bool {
    exists|flags: Seq<bool>|
        #![trigger select(sorted, flags, true)]
        flags.len() == sorted.len() && (forall|j: int|
            0 <= j < sorted.len() ==> reported(
                path_exists,
                workflow_path(base_dir, (#[trigger] sorted[j]).0, file),
                flags[j],
            )) && check.installed_repos@.map_values(|r: WorkflowRepoExistRepo| listed_view(r))
            == select(sorted, flags, true) && check.missing_repos@.map_values(
            |r: WorkflowRepoExistRepo| listed_view(r),
        ) == select(sorted, flags, false)
}

/// The workflow source directory: `<base>/github-actions/.github/workflows`.
pub open spec fn source_workflows_dir(base_dir: Seq<char>) -> Seq<char> {
    workflows_dir(base_dir, workflow_source_repo())
}

/// The error when the workflow source directory is missing.
pub open spec fn missing_source_message(dir: Seq<char>) -> Seq<char> {
    "github-actions/.github/workflows が見つかりません: "@ + dir
}

/// The error when the workflow source directory cannot be read.
pub open spec fn unreadable_source_message(dir: Seq<char>, cause: Seq<char>) -> Seq<char> {
    "Failed to read workflow dir: "@ + dir + ": "@ + cause
}

/// The names of the workflow callers among the entries.
fn call_workflow_name_list(entries: &Vec<FileEntry>) -> (r: Vec<String>)
    ensures
        r@.map_values(|s: String| s@) == call_workflow_names(entries@),
{
    let mut r: Vec<String> = Vec::new();
    let mut i: usize = 0;
    while i < entries.len()
        invariant
            i <= entries@.len(),
            r@.map_values(|s: String| s@) == call_workflow_names(entries@.take(i as int)),
        decreases entries@.len() - i,
    {
        proof {
            assert(entries@.take(i + 1).drop_last() =~= entries@.take(i as int));
            assert(entries@.take(i + 1).last() == entries@[i as int]);
        }
        match &entries[i].name {
            Some(n) => {
                if entries[i].is_file && is_call_workflow_name(n.as_str()) {
                    let ghost before = r@;
                    r.push(n.clone());
                    assert(r@.map_values(|s: String| s@) =~= before.map_values(|s: String| s@).push(
                        n@,
                    ));
                }
            },
            None => {},
        }
        i += 1;
    }
    assert(entries@.take(entries@.len() as int) =~= entries@);
    r
}

/// The cloned repositories other than the workflow source, as listed.
fn local_repo_list(repos: &[RepoInfo]) -> (r: Vec<WorkflowRepoExistRepo>)
    ensures
        r@.map_values(|x: WorkflowRepoExistRepo| listed_view(x)) == local_repo_views(repos@),
{
    let mut r: Vec<WorkflowRepoExistRepo> = Vec::new();
    let mut i: usize = 0;
    while i < repos.len()
        invariant
            i <= repos@.len(),
            r@.map_values(|x: WorkflowRepoExistRepo| listed_view(x)) == local_repo_views(
                repos@.take(i as int),
            ),
        decreases repos@.len() - i,
    {
        proof {
            assert(repos@.take(i + 1).drop_last() =~= repos@.take(i as int));
            assert(repos@.take(i + 1).last() == repos@[i as int]);
        }
        let repo = &repos[i];
        if repo.has_local_git && !str_eq(repo.name.as_str(), "github-actions") {
            let item = WorkflowRepoExistRepo {
                name: repo.name.clone(),
                updated_at: repo.updated_at.clone(),
                updated_at_raw: repo.updated_at_raw.clone(),
            };
            let ghost before = r@;
            r.push(item);
            assert(r@.map_values(|x: WorkflowRepoExistRepo| listed_view(x)) =~= before.map_values(
                |x: WorkflowRepoExistRepo| listed_view(x),
            ).push((repo.name@, repo.updated_at@, repo.updated_at_raw@)));
        }
        i += 1;
    }
    assert(repos@.take(repos@.len() as int) =~= repos@);
    r
}

/// A copy of a listed repository.
fn copy_listed(r: &WorkflowRepoExistRepo) -> (c: WorkflowRepoExistRepo)
    ensures
        listed_view(c) == listed_view(*r),
{
    WorkflowRepoExistRepo {
        name: r.name.clone(),
        updated_at: r.updated_at.clone(),
        updated_at_raw: r.updated_at_raw.clone(),
    }
}

/// Splits the sorted repositories by whether each has `file`.
fn split_repos<E: Fn(&str) -> bool>(
    base_dir: &str,
    file: &str,
    sorted: &Vec<WorkflowRepoExistRepo>,
    path_exists: &E,
) -> (r: WorkflowRepoExistCheck)
    requires
        forall|p: &str| call_requires(*path_exists, (p,)),
    ensures
        r.workflow_file@ == file@,
        split_by_presence(
            *path_exists,
            base_dir@,
            file@,
            sorted@.map_values(|x: WorkflowRepoExistRepo| listed_view(x)),
            r,
        ),
{
    let ghost sv = sorted@.map_values(|x: WorkflowRepoExistRepo| listed_view(x));
    let ghost mut flags: Seq<bool> = seq![];
    let mut installed: Vec<WorkflowRepoExistRepo> = Vec::new();
    let mut missing: Vec<WorkflowRepoExistRepo> = Vec::new();
    let mut j: usize = 0;
    while j < sorted.len()
        invariant
            j <= sorted@.len(),
            sv == sorted@.map_values(|x: WorkflowRepoExistRepo| listed_view(x)),
            forall|p: &str| call_requires(*path_exists, (p,)),
            flags.len() == j,
            forall|k: int|
                0 <= k < j ==> reported(
                    *path_exists,
                    workflow_path(base_dir@, (#[trigger] sv[k]).0, file@),
                    flags[k],
                ),
            installed@.map_values(|x: WorkflowRepoExistRepo| listed_view(x)) == select(
                sv.take(j as int),
                flags,
                true,
            ),
            missing@.map_values(|x: WorkflowRepoExistRepo| listed_view(x)) == select(
                sv.take(j as int),
                flags,
                false,
            ),
        decreases sorted@.len() - j,
    {
        let path = workflow_file_path(base_dir, sorted[j].name.as_str(), file);
        let p: &str = path.as_str();
        let present = path_exists(p);
        let ghost f0 = flags;
        proof {
            flags = flags.push(present);
            assert(sv[j as int] == listed_view(sorted@[j as int]));
            assert(reported(*path_exists, workflow_path(base_dir@, sv[j as int].0, file@), present));
            assert forall|k: int| 0 <= k < j + 1 implies reported(
                *path_exists,
                workflow_path(base_dir@, (#[trigger] sv[k]).0, file@),
                flags[k],
            ) by {
                if k < j {
                    assert(flags[k] == f0[k]);
                }
            }
            assert(sv.take(j + 1).drop_last() =~= sv.take(j as int));
            assert(flags.drop_last() =~= f0);
            assert(sv.take(j + 1).last() == sv[j as int]);
        }
        let item = copy_listed(&sorted[j]);
        if present {
            let ghost before = installed@;
            installed.push(item);
            assert(installed@.map_values(|x: WorkflowRepoExistRepo| listed_view(x)) =~= before.map_values(
                |x: WorkflowRepoExistRepo| listed_view(x),
            ).push(sv[j as int]));
        } else {
            let ghost before = missing@;
            missing.push(item);
            assert(missing@.map_values(|x: WorkflowRepoExistRepo| listed_view(x)) =~= before.map_values(
                |x: WorkflowRepoExistRepo| listed_view(x),
            ).push(sv[j as int]));
        }
        j += 1;
    }
    assert(sv.take(sorted@.len() as int) =~= sv);
    let r = WorkflowRepoExistCheck {
        workflow_file: file.to_owned(),
        installed_repos: installed,
        missing_repos: missing,
    };
    assert(select(sv, flags, true) == r.installed_repos@.map_values(|x: WorkflowRepoExistRepo| listed_view(x)));
    r
}

/// The sort keys of workflow file names.
fn name_key_list(names: &Vec<String>) -> (r: Vec<SortKey>)
    ensures
        key_views(r@) == name_keys(names@.map_values(|s: String| s@)),
{
    let mut r: Vec<SortKey> = Vec::new();
    let mut i: usize = 0;
    while i < names.len()
        invariant
            i <= names@.len(),
            r@.len() == i,
            forall|j: int|
                0 <= j < i ==> key_view(#[trigger] r@[j]) == (
                    0int,
                    Seq::<char>::empty(),
                    names@[j]@,
                ),
        decreases names@.len() - i,
    {
        r.push(SortKey { group: 0, text: String::new(), tie: names[i].clone() });
        i += 1;
    }
    assert(key_views(r@) =~= name_keys(names@.map_values(|s: String| s@)));
    r
}

/// The sort keys of listed repositories.
fn listed_key_list(rs: &Vec<WorkflowRepoExistRepo>) -> (r: Vec<SortKey>)
    ensures
        key_views(r@) == listed_keys(rs@.map_values(|x: WorkflowRepoExistRepo| listed_view(x))),
{
    let mut r: Vec<SortKey> = Vec::new();
    let mut i: usize = 0;
    while i < rs.len()
        invariant
            i <= rs@.len(),
            r@.len() == i,
            forall|j: int|
                0 <= j < i ==> key_view(#[trigger] r@[j]) == (
                    0int,
                    rs@[j].updated_at_raw@,
                    rs@[j].name@,
                ),
        decreases rs@.len() - i,
    {
        r.push(
            SortKey { group: 0, text: rs[i].updated_at_raw.clone(), tie: rs[i].name.clone() },
        );
        i += 1;
    }
    assert(key_views(r@) =~= listed_keys(rs@.map_values(|x: WorkflowRepoExistRepo| listed_view(x))));
    r
}

/// For each reusable workflow caller of the workflow source repository (by
/// name), the cloned repositories that have it and those that lack it (most
/// recently pushed first, then by name).  `path_exists` tells whether a
/// path exists; `list_files` lists a directory.
pub fn collect_workflow_repo_exist_checks<E, F>(
    base_dir: &str,
    repos: &[RepoInfo],
    path_exists: &E,
    list_files: &mut F,
) -> (r: Result<Vec<WorkflowRepoExistCheck>, String>) where
    E: Fn(&str) -> bool,
    F: FnMut(&str) -> Result<Vec<FileEntry>, String>,

    requires
        forall|p: &str| call_requires(*path_exists, (p,)),
        forall|p: &str| call_requires(*old(list_files), (p,)),
    ensures
        *final(list_files) == *old(list_files),
        exists|present: bool|
            #![trigger reported(*path_exists, source_workflows_dir(base_dir@), present)]
            reported(*path_exists, source_workflows_dir(base_dir@), present) && if !present {
                r matches Err(m) && m@ == missing_source_message(source_workflows_dir(base_dir@))
            } else {
                exists|d: &str, listing: Result<Vec<FileEntry>, String>|
                    #![trigger call_ensures(*old(list_files), (d,), listing)]
                    d@ == source_workflows_dir(base_dir@) && call_ensures(
                        *old(list_files),
                        (d,),
                        listing,
                    ) && match listing {
                        Err(cause) => r matches Err(m) && m@ == unreadable_source_message(
                            d@,
                            cause@,
                        ),
                        Ok(entries) => r matches Ok(checks) && ({
                            let names = call_workflow_names(entries@);
                            let locals = local_repo_views(repos@);
                            exists|pf: Seq<int>, pr: Seq<int>|
                                #![trigger sorted_stable(name_keys(names), pf), sorted_stable(listed_keys(locals), pr)]
                                sorted_stable(name_keys(names), pf) && sorted_stable(
                                    listed_keys(locals),
                                    pr,
                                ) && checks@.len() == names.len() && forall|k: int|
                                    0 <= k < checks@.len() ==> (#[trigger] checks@[k]).workflow_file@
                                        == names[pf[k]] && split_by_presence(
                                        *path_exists,
                                        base_dir@,
                                        names[pf[k]],
                                        pr.map_values(|i: int| locals[i]),
                                        checks@[k],
                                    )
                        }),
                    }
            },
{
    let mut dir = crate::git_status::build_repo_path(base_dir, "github-actions");
    push_str(&mut dir, "/.github/workflows");
    assert(dir@ =~= source_workflows_dir(base_dir@));
    let d: &str = dir.as_str();
    let present = path_exists(d);
    assert(reported(*path_exists, source_workflows_dir(base_dir@), present));
    if !present {
        let mut m = String::new();
        push_str(&mut m, "github-actions/.github/workflows が見つかりません: ");
        push_str(&mut m, d);
        return Err(m);
    }
    let listing = list_files(d);
    let ghost lv = listing;
    let entries = match listing {
        Ok(e) => e,
        Err(cause) => {
            let mut m = String::new();
            push_str(&mut m, "Failed to read workflow dir: ");
            push_str(&mut m, d);
            push_str(&mut m, ": ");
            push_str(&mut m, cause.as_str());
            return Err(m);
        },
    };
    let names = call_workflow_name_list(&entries);
    let ghost nv = names@.map_values(|s: String| s@);
    let name_order = sort_indices_stable(&name_key_list(&names));
    let ghost pf = name_order@.map_values(|i: usize| i as int);
    let locals = local_repo_list(repos);
    let ghost lvw = locals@.map_values(|x: WorkflowRepoExistRepo| listed_view(x));
    let repo_order = sort_indices_stable(&listed_key_list(&locals));
    let ghost pr = repo_order@.map_values(|i: usize| i as int);
    let mut sorted: Vec<WorkflowRepoExistRepo> = Vec::new();
    let mut k: usize = 0;
    while k < repo_order.len()
        invariant
            k <= repo_order@.len(),
            repo_order@.len() == locals@.len(),
            pr == repo_order@.map_values(|i: usize| i as int),
            crate::order::is_index_permutation(pr, locals@.len() as int),
            lvw == locals@.map_values(|x: WorkflowRepoExistRepo| listed_view(x)),
            sorted@.len() == k,
            sorted@.map_values(|x: WorkflowRepoExistRepo| listed_view(x)) == pr.take(k as int).map_values(
                |i: int| lvw[i],
            ),
        decreases repo_order@.len() - k,
    {
        assert(pr[k as int] == repo_order@[k as int] as int);
        let ghost before = sorted@;
        let item = copy_listed(&locals[repo_order[k]]);
        sorted.push(item);
        proof {
            assert(sorted@ == before.push(item));
            assert(listed_view(item) == lvw[pr[k as int]]);
            let ms = sorted@.map_values(|x: WorkflowRepoExistRepo| listed_view(x));
            let ts = pr.take(k + 1).map_values(|i: int| lvw[i]);
            let mb = before.map_values(|x: WorkflowRepoExistRepo| listed_view(x));
            let tb = pr.take(k as int).map_values(|i: int| lvw[i]);
            assert forall|j: int| 0 <= j < k + 1 implies #[trigger] ms[j] == ts[j] by {
                if j < k {
                    assert(sorted@[j] == before[j]);
                    assert(mb[j] == tb[j]);
                }
            }
            assert(sorted@.map_values(|x: WorkflowRepoExistRepo| listed_view(x)) =~= pr.take(
                k + 1,
            ).map_values(|i: int| lvw[i]));
        }
        k += 1;
    }
    assert(pr.take(repo_order@.len() as int) =~= pr);
    let ghost sv = sorted@.map_values(|x: WorkflowRepoExistRepo| listed_view(x));
    assert(sv == pr.map_values(|i: int| lvw[i]));
    let mut checks: Vec<WorkflowRepoExistCheck> = Vec::new();
    let mut f: usize = 0;
    while f < name_order.len()
        invariant
            f <= name_order@.len(),
            name_order@.len() == names@.len(),
            pf == name_order@.map_values(|i: usize| i as int),
            crate::order::is_index_permutation(pf, names@.len() as int),
            nv == names@.map_values(|s: String| s@),
            sv == sorted@.map_values(|x: WorkflowRepoExistRepo| listed_view(x)),
            forall|p: &str| call_requires(*path_exists, (p,)),
            checks@.len() == f,
            forall|j: int|
                0 <= j < f ==> (#[trigger] checks@[j]).workflow_file@ == nv[pf[j]]
                    && split_by_presence(*path_exists, base_dir@, nv[pf[j]], sv, checks@[j]),
        decreases name_order@.len() - f,
    {
        assert(pf[f as int] == name_order@[f as int] as int);
        let c = split_repos(base_dir, names[name_order[f]].as_str(), &sorted, path_exists);
        checks.push(c);
        f += 1;
    }
    let r: Result<Vec<WorkflowRepoExistCheck>, String> = Ok(checks);
    proof {
        assert(lvw == local_repo_views(repos@));
        assert(nv == call_workflow_names(entries@));
        assert(sorted_stable(name_keys(nv), pf));
        assert(sorted_stable(listed_keys(lvw), pr));
    }
    r
}

} // verus!
