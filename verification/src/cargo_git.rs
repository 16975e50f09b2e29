//! The comparison of a `cargo install --git` checkout with the remote: the
//! install entry is found in `.crates2.json`, its checkout directory under
//! `git/checkouts`, and the checkout's HEAD is compared with the remote's
//! `main`.  Reading directories and running `git` are handed in.
use vstd::prelude::*;

use crate::cargo_install::{
    CargoGitInstallCheck, CargoInstallMetadata, checkout_candidates, checkout_dir_matches, entry_matches_repo,
    matches_checkout_dir_name, parse_cargo_install_entry, parsed_install_entry,
    unique_checkout_name_candidates, cargo_install_entry_matches_repo,
};
use crate::json::{JsonField, install_fields, installs_of, json_document, parse_json};
use crate::cargo_log::{cargo_check_message, log_cargo_check_result, logged};
use crate::types::decimal;
use crate::cargo_checks::bool_text;
use crate::order::{SortKey, key_view, key_views, sort_indices_stable, sorted_stable};
use crate::text::{
    chars_of, debug_str, debug_str_list, debug_string, debug_string_list, push_str, str_eq, trim, trim_str, words, words_of,
    string_of, views,
};

verus! {

broadcast use vstd::function::group_function_axioms;

/// One finished run of a command.
pub struct CommandRun {
    /// The exit status as printed (`exit code: 0`).
    pub status_label: String,
    pub success: bool,
    pub stdout: String,
    pub stderr: String,
}

/// `git -C <path> rev-parse HEAD`.
pub open spec fn rev_parse_head_command(path: Seq<char>) -> Seq<char> {
    "git -C "@ + path + " rev-parse HEAD"@
}

/// The command line that reads the HEAD of the clone at `path`.
pub fn format_git_rev_parse_head_command(path: &str) -> (r: String)
    ensures
        r@ == rev_parse_head_command(path@),
{
    let mut s = String::new();
    push_str(&mut s, "git -C ");
    push_str(&mut s, path);
    push_str(&mut s, " rev-parse HEAD");
    s
}

/// `git ls-remote https://github.com/<owner>/<repo>.git refs/heads/main`.
pub open spec fn ls_remote_main_command(owner: Seq<char>, repo: Seq<char>) -> Seq<char> {
    "git ls-remote https://github.com/"@ + owner + "/"@ + repo + ".git refs/heads/main"@
}

/// The command line that reads the remote `main` of `owner/repo_name`.
pub fn format_git_ls_remote_main_command(owner: &str, repo_name: &str) -> (r: String)
    ensures
        r@ == ls_remote_main_command(owner@, repo_name@),
{
    let mut s = String::new();
    push_str(&mut s, "git ls-remote https://github.com/");
    push_str(&mut s, owner);
    push_str(&mut s, "/");
    push_str(&mut s, repo_name);
    push_str(&mut s, ".git refs/heads/main");
    s
}

/// `一致` or `不一致`.
pub open spec fn match_word(m: bool) -> Seq<char> {
    if m {
        "一致"@
    } else {
        "不一致"@
    }
}

/// `<label>=<bool> (<一致|不一致>)`.
pub open spec fn match_status(label: Seq<char>, m: bool) -> Seq<char> {
    label + "="@ + bool_text(m) + " ("@ + match_word(m) + ")"@
}

/// The one-line summary of the three hashes and which of them agree.
pub open spec fn hash_summary(remote: Seq<char>, installed: Seq<char>, local: Seq<char>) -> Seq<char> {
    "ハッシュ要約: リモートハッシュ="@ + remote + ", cargo install ハッシュ="@ + installed
        + ", ローカルハッシュ="@ + local + ", "@ + match_status(
        "リモートと cargo install の一致"@,
        remote == installed,
    ) + ", "@ + match_status("cargo install とローカルの一致"@, installed == local) + ", "@
        + match_status("リモートとローカルの一致"@, remote == local)
}

fn push_match_status(s: &mut String, label: &str, m: bool)
    ensures
        final(s)@ == old(s)@ + match_status(label@, m),
{
    push_str(s, label);
    push_str(s, "=");
    crate::cargo_checks::push_bool(s, m);
    push_str(s, " (");
    if m {
        push_str(s, "一致");
    } else {
        push_str(s, "不一致");
    }
    push_str(s, ")");
}

/// The one-line summary of the remote `main`, the installed checkout and the
/// local clone hashes.
pub fn format_cargo_hash_summary(remote_hash: &str, installed_hash: &str, local_hash: &str) -> (r:
    String)
    ensures
        r@ == hash_summary(remote_hash@, installed_hash@, local_hash@),
{
    let mut s = String::new();
    push_str(&mut s, "ハッシュ要約: リモートハッシュ=");
    push_str(&mut s, remote_hash);
    push_str(&mut s, ", cargo install ハッシュ=");
    push_str(&mut s, installed_hash);
    push_str(&mut s, ", ローカルハッシュ=");
    push_str(&mut s, local_hash);
    push_str(&mut s, ", ");
    push_match_status(&mut s, "リモートと cargo install の一致", str_eq(remote_hash, installed_hash));
    push_str(&mut s, ", ");
    push_match_status(&mut s, "cargo install とローカルの一致", str_eq(installed_hash, local_hash));
    push_str(&mut s, ", ");
    push_match_status(&mut s, "リモートとローカルの一致", str_eq(remote_hash, local_hash));
    assert(s@ =~= hash_summary(remote_hash@, installed_hash@, local_hash@));
    s
}

/// `cargo check: リポジトリ=<owner>/<repo> パス=<path> 結果=<result>`.
pub open spec fn path_message(owner: Seq<char>, repo: Seq<char>, path: Seq<char>, result: Seq<char>) -> Seq<char> {
    "cargo check: リポジトリ="@ + owner + "/"@ + repo + " パス="@ + path + " 結果="@ + result
}

/// Hands one step about `path` to the logger.
pub fn log_cargo_check_path_result<L: FnMut(&str)>(
    log_fn: &mut L,
    owner: &str,
    repo_name: &str,
    path: &str,
    result: &str,
)
    requires
        forall|s: &str| call_requires(*old(log_fn), (s,)),
    ensures
        *final(log_fn) == *old(log_fn),
        forall|s: &str| call_requires(*final(log_fn), (s,)),
        exists|m: &str|
            #![trigger call_ensures(*old(log_fn), (m,), ())]
            m@ == path_message(owner@, repo_name@, path@, result@) && call_ensures(*old(log_fn), (m,), ()),
{
    let mut s = String::new();
    push_str(&mut s, "cargo check: リポジトリ=");
    push_str(&mut s, owner);
    push_str(&mut s, "/");
    push_str(&mut s, repo_name);
    push_str(&mut s, " パス=");
    push_str(&mut s, path);
    push_str(&mut s, " 結果=");
    push_str(&mut s, result);
    log_fn(s.as_str());
}

/// `cargo check: リポジトリ=<owner>/<repo> コマンド=<command> 結果=status=<status>
/// 標準出力=<stdout> 標準エラー=<stderr>`, the outputs trimmed and quoted.
pub open spec fn command_message(owner: Seq<char>, repo: Seq<char>, command: Seq<char>, run: CommandRun) -> Seq<char> {
    "cargo check: リポジトリ="@ + owner + "/"@ + repo + " コマンド="@ + command + " 結果=status="@
        + run.status_label@ + " 標準出力="@ + debug_str(trim(run.stdout@)) + " 標準エラー="@
        + debug_str(trim(run.stderr@))
}

/// Hands the outcome of one command to the logger, with its trimmed output.
pub fn log_cargo_check_command_result<L: FnMut(&str)>(
    log_fn: &mut L,
    owner: &str,
    repo_name: &str,
    command: &str,
    run: &CommandRun,
)
    requires
        forall|s: &str| call_requires(*old(log_fn), (s,)),
    ensures
        forall|s: &str| call_requires(*final(log_fn), (s,)),
        exists|m: &str|
            #![trigger call_ensures(*old(log_fn), (m,), ())]
            m@ == command_message(owner@, repo_name@, command@, *run) && call_ensures(*old(log_fn), (m,), ()),
{
    let mut s = String::new();
    push_str(&mut s, "cargo check: リポジトリ=");
    push_str(&mut s, owner);
    push_str(&mut s, "/");
    push_str(&mut s, repo_name);
    push_str(&mut s, " コマンド=");
    push_str(&mut s, command);
    push_str(&mut s, " 結果=status=");
    push_str(&mut s, run.status_label.as_str());
    push_str(&mut s, " 標準出力=");
    let out = debug_string(trim_str(run.stdout.as_str()).as_str());
    push_str(&mut s, out.as_str());
    push_str(&mut s, " 標準エラー=");
    let err = debug_string(trim_str(run.stderr.as_str()).as_str());
    push_str(&mut s, err.as_str());
    log_fn(s.as_str());
}

/// The hash read from `git ls-remote` output: its first word, when the
/// command succeeded and printed one.
pub open spec fn remote_hash_of(run: Result<CommandRun, String>) -> Option<Seq<char>> {
    match run {
        Ok(run) => if run.success && words(run.stdout@).len() > 0 {
            Some(words(run.stdout@)[0])
        } else {
            None
        },
        Err(_) => None,
    }
}

/// The remote `main` hash of `owner/repo_name`, from one run of
/// `git ls-remote` (handed in as `run_ls_remote`); every step is logged.
pub fn fetch_remote_main_hash<L, R>(
    log_fn: &mut L,
    owner: &str,
    repo_name: &str,
    run_ls_remote: &mut R,
) -> (r: Option<String>) where
    L: FnMut(&str),
    R: FnMut(&str, &str) -> Result<CommandRun, String>,

    requires
        forall|s: &str| call_requires(*old(log_fn), (s,)),
        call_requires(*old(run_ls_remote), (owner, repo_name)),
    ensures
        forall|s: &str| call_requires(*final(log_fn), (s,)),
        *final(run_ls_remote) == *old(run_ls_remote),
        exists|run: Result<CommandRun, String>|
            call_ensures(*old(run_ls_remote), (owner, repo_name), run) && match remote_hash_of(run) {
                Some(h) => r matches Some(x) && x@ == h,
                None => r is None,
            },
{
    let command = format_git_ls_remote_main_command(owner, repo_name);
    let mut msg = String::new();
    push_str(&mut msg, "remote のコミットハッシュ取得を開始します: コマンド=");
    push_str(&mut msg, command.as_str());
    log_cargo_check_result(log_fn, owner, repo_name, msg.as_str());
    let result = run_ls_remote(owner, repo_name);
    let ghost result_v = result;
    let run = match result {
        Ok(run) => run,
        Err(err) => {
            let mut msg = String::new();
            push_str(&mut msg, "コマンドの起動に失敗しました: コマンド=");
            push_str(&mut msg, command.as_str());
            push_str(&mut msg, ": ");
            push_str(&mut msg, err.as_str());
            log_cargo_check_result(log_fn, owner, repo_name, msg.as_str());
            return None;
        },
    };
    log_cargo_check_command_result(log_fn, owner, repo_name, command.as_str(), &run);
    if !run.success {
        return None;
    }
    let out = chars_of(run.stdout.as_str());
    let ws = words_of(out.as_slice());
    if ws.len() == 0 {
        log_cargo_check_result(log_fn, owner, repo_name, "remote main ブランチのハッシュが空です");
        return None;
    }
    assert(ws@[0]@ == views(ws@)[0]);
    let hash = string_of(ws[0].as_slice());
    let mut msg = String::new();
    push_str(&mut msg, "remote のコミットハッシュを取得しました: ");
    push_str(&mut msg, hash.as_str());
    log_cargo_check_result(log_fn, owner, repo_name, msg.as_str());
    Some(hash)
}

/// One sub-directory of a directory: its name, its path as printed, and
/// when it was last modified (seconds and nanoseconds since the epoch).
pub struct DirEntryInfo {
    pub name: String,
    pub path: String,
    pub modified_secs: u64,
    pub modified_nanos: u32,
}

/// The names of `entries`.
pub open spec fn entry_names(entries: Seq<DirEntryInfo>) -> Seq<Seq<char>> {
    entries.map_values(|e: DirEntryInfo| e.name@)
}

/// Indices of the names that are checkout directories of `app`, in order.
pub open spec fn matching_indices(names: Seq<Seq<char>>, app: Seq<char>) -> Seq<int>
    decreases names.len(),
{
    if names.len() == 0 {
        seq![]
    } else {
        let rest = matching_indices(names.drop_last(), app);
        if checkout_dir_matches(names.last(), app) {
            rest.push(names.len() - 1)
        } else {
            rest
        }
    }
}

/// The checkout base directory to use: for the first candidate name that
/// any directory matches, that directory if it is the only one; none when
/// it is ambiguous or nothing matches.
pub open spec fn base_choice(names: Seq<Seq<char>>, cands: Seq<Seq<char>>) -> Option<int>
    decreases cands.len(),
{
    if cands.len() == 0 {
        None
    } else {
        let ms = matching_indices(names, cands[0]);
        if ms.len() == 0 {
            base_choice(names, cands.drop_first())
        } else if ms.len() == 1 {
            Some(ms[0])
        } else {
            None
        }
    }
}

/// Sort keys of checkout sub-directories: most recently modified first,
/// then by path from greatest to least.
pub open spec fn dir_keys(entries: Seq<DirEntryInfo>) -> Seq<(int, Seq<char>, Seq<char>)> {
    Seq::new(
        entries.len(),
        |i: int|
            (
                -(entries[i].modified_secs as int * 1_000_000_000 + entries[i].modified_nanos as int),
                entries[i].path@,
                Seq::<char>::empty(),
            ),
    )
}

/// RFC 3339 with milliseconds, UTC (`2024-01-01T00:00:00.000Z`), of the
/// instant `secs` and `nanos` after the epoch, when chrono can represent it.
pub uninterp spec fn rfc3339_millis(secs: i64, nanos: u32) -> Option<Seq<char>>;

/// `DateTime::<Utc>::from_timestamp(secs, nanos)` printed by
/// `to_rfc3339_opts(SecondsFormat::Millis, true)`; `None` when chrono
/// cannot represent the instant.
#[verifier::external_body]
fn format_rfc3339_millis(secs: i64, nanos: u32) -> (r: Option<String>)
    ensures
        match r {
            Some(t) => rfc3339_millis(secs, nanos) == Some(t@),
            None => rfc3339_millis(secs, nanos) is None,
        },
{
    match chrono::DateTime::<chrono::Utc>::from_timestamp(secs, nanos) {
        Some(dt) => Some(dt.to_rfc3339_opts(chrono::SecondsFormat::Millis, true)),
        None => None,
    }
}

/// The modification time of a checkout directory as logged: RFC 3339 with
/// milliseconds, empty when the instant cannot be printed.
pub open spec fn modified_at_text(secs: u64, nanos: u32) -> Seq<char> {
    if secs <= i64::MAX {
        match rfc3339_millis(secs as i64, nanos) {
            Some(t) => t,
            None => Seq::empty(),
        }
    } else {
        Seq::empty()
    }
}

/// When a checkout directory was modified, as logged (empty when the
/// instant cannot be printed).
pub fn format_checkout_dir_modified_at(secs: u64, nanos: u32) -> (r: String)
    ensures
        r@ == modified_at_text(secs, nanos),
{
    if secs > i64::MAX as u64 {
        return String::new();
    }
    match format_rfc3339_millis(secs as i64, nanos) {
        Some(t) => t,
        None => String::new(),
    }
}

/// Indices of the entries whose names are checkout directories of `app`.
fn matching_entries(entries: &Vec<DirEntryInfo>, app: &str) -> (r: Vec<usize>)
    ensures
        r@.map_values(|i: usize| i as int) == matching_indices(entry_names(entries@), app@),
        forall|k: int| 0 <= k < r@.len() ==> (#[trigger] r@[k]) < entries@.len(),
{
    let ghost names = entry_names(entries@);
    let mut r: Vec<usize> = Vec::new();
    let mut i: usize = 0;
    while i < entries.len()
        invariant
            i <= entries@.len(),
            names == entry_names(entries@),
            r@.map_values(|i: usize| i as int) == matching_indices(names.take(i as int), app@),
            forall|k: int| 0 <= k < r@.len() ==> (#[trigger] r@[k]) < i,
        decreases entries@.len() - i,
    {
        proof {
            assert(names.take(i + 1).drop_last() =~= names.take(i as int));
            assert(names.take(i + 1).last() == entries@[i as int].name@);
        }
        if matches_checkout_dir_name(entries[i].name.as_str(), app) {
            let ghost before = r@;
            r.push(i);
            proof {
                assert(r@.map_values(|i: usize| i as int) =~= before.map_values(|i: usize| i as int).push(
                    i as int,
                ));
            }
        }
        i += 1;
    }
    assert(names.take(entries@.len() as int) =~= names);
    r
}

/// The names of the entries at `idx`.
fn names_at(entries: &Vec<DirEntryInfo>, idx: &Vec<usize>) -> (r: Vec<String>)
    requires
        forall|k: int| 0 <= k < idx@.len() ==> (#[trigger] idx@[k]) < entries@.len(),
    ensures
        r@.len() == idx@.len(),
        forall|k: int| 0 <= k < idx@.len() ==> (#[trigger] r@[k])@ == entries@[idx@[k] as int].name@,
{
    let mut r: Vec<String> = Vec::new();
    let mut k: usize = 0;
    while k < idx.len()
        invariant
            k <= idx@.len(),
            forall|j: int| 0 <= j < idx@.len() ==> (#[trigger] idx@[j]) < entries@.len(),
            r@.len() == k,
            forall|j: int| 0 <= j < k ==> (#[trigger] r@[j])@ == entries@[idx@[j] as int].name@,
        decreases idx@.len() - k,
    {
        r.push(entries[idx[k]].name.clone());
        k += 1;
    }
    r
}

/// The paths of the entries at `idx`.
fn paths_at(entries: &Vec<DirEntryInfo>, idx: &Vec<usize>) -> (r: Vec<String>)
    requires
        forall|k: int| 0 <= k < idx@.len() ==> (#[trigger] idx@[k]) < entries@.len(),
    ensures
        r@.len() == idx@.len(),
        forall|k: int| 0 <= k < idx@.len() ==> (#[trigger] r@[k])@ == entries@[idx@[k] as int].path@,
{
    let mut r: Vec<String> = Vec::new();
    let mut k: usize = 0;
    while k < idx.len()
        invariant
            k <= idx@.len(),
            forall|j: int| 0 <= j < idx@.len() ==> (#[trigger] idx@[j]) < entries@.len(),
            r@.len() == k,
            forall|j: int| 0 <= j < k ==> (#[trigger] r@[j])@ == entries@[idx@[j] as int].path@,
        decreases idx@.len() - k,
    {
        r.push(entries[idx[k]].path.clone());
        k += 1;
    }
    r
}

/// The sort keys of checkout sub-directories.
fn dir_key_list(entries: &Vec<DirEntryInfo>) -> (r: Vec<SortKey>)
    ensures
        key_views(r@) == dir_keys(entries@),
{
    let mut r: Vec<SortKey> = Vec::new();
    let mut i: usize = 0;
    while i < entries.len()
        invariant
            i <= entries@.len(),
            r@.len() == i,
            forall|j: int|
                0 <= j < i ==> key_view(#[trigger] r@[j]) == (
                    -(entries@[j].modified_secs as int * 1_000_000_000
                        + entries@[j].modified_nanos as int),
                    entries@[j].path@,
                    Seq::<char>::empty(),
                ),
        decreases entries@.len() - i,
    {
        let e = &entries[i];
        let total: i128 = (e.modified_secs as i128) * 1_000_000_000 + (e.modified_nanos as i128);
        r.push(SortKey { group: -total, text: e.path.clone(), tie: String::new() });
        i += 1;
    }
    assert(key_views(r@) =~= dir_keys(entries@));
    r
}

/// `更新日時順の checkout subdir 候補[<k>]=<path> 更新日時=<when>`, the line
/// for the `k`-th candidate checkout sub-directory.
pub open spec fn candidate_line(k: int, e: DirEntryInfo) -> Seq<char> {
    "更新日時順の checkout subdir 候補["@ + decimal(k as nat) + "]="@ + e.path@ + " 更新日時="@
        + modified_at_text(e.modified_secs, e.modified_nanos)
}

/// Logs the checkout sub-directories in the order they are considered.
fn log_subdir_candidates<L: FnMut(&str)>(
    log_fn: &mut L,
    owner: &str,
    repo_name: &str,
    base_path: &str,
    subs: &Vec<DirEntryInfo>,
    perm: &Vec<usize>,
)
    requires
        forall|s: &str| call_requires(*old(log_fn), (s,)),
        forall|k: int| 0 <= k < perm@.len() ==> (#[trigger] perm@[k]) < subs@.len(),
    ensures
        forall|s: &str| call_requires(*final(log_fn), (s,)),
        *final(log_fn) == *old(log_fn),
        forall|k: int|
            0 <= k < perm@.len() ==> logged(
                *old(log_fn),
                path_message(
                    owner@,
                    repo_name@,
                    base_path@,
                    candidate_line(k, subs@[#[trigger] perm@[k] as int]),
                ),
            ),
{
    let ghost f0 = *log_fn;
    let mut k: usize = 0;
    while k < perm.len()
        invariant
            k <= perm@.len(),
            *log_fn == f0,
            forall|s: &str| call_requires(f0, (s,)),
            forall|j: int| 0 <= j < perm@.len() ==> (#[trigger] perm@[j]) < subs@.len(),
            forall|j: int|
                0 <= j < k ==> logged(
                    f0,
                    path_message(
                        owner@,
                        repo_name@,
                        base_path@,
                        candidate_line(j, subs@[#[trigger] perm@[j] as int]),
                    ),
                ),
        decreases perm@.len() - k,
    {
        let e = &subs[perm[k]];
        let mut msg = String::new();
        push_str(&mut msg, "更新日時順の checkout subdir 候補[");
        crate::types::push_decimal(&mut msg, k as u64);
        push_str(&mut msg, "]=");
        push_str(&mut msg, e.path.as_str());
        push_str(&mut msg, " 更新日時=");
        let when = format_checkout_dir_modified_at(e.modified_secs, e.modified_nanos);
        push_str(&mut msg, when.as_str());
        assert(msg@ =~= candidate_line(k as int, subs@[perm@[k as int] as int]));
        log_cargo_check_path_result(log_fn, owner, repo_name, base_path, msg.as_str());
        assert(logged(
            f0,
            path_message(
                owner@,
                repo_name@,
                base_path@,
                candidate_line(k as int, subs@[perm@[k as int] as int]),
            ),
        ));
        k += 1;
    }
}

/// What the second directory listing leads to: no sub-directory, or the
/// path of the newest one.
pub open spec fn newest_subdir(sub: Result<Vec<DirEntryInfo>, String>, r: Option<String>) -> bool {
    match sub {
        Err(_) => r is None,
        Ok(subs) => if subs@.len() == 0 {
            r is None
        } else {
            exists|perm: Seq<int>|
                sorted_stable(dir_keys(subs@), perm) && (r matches Some(p) && p@
                    == subs@[perm[0]].path@)
        },
    }
}

/// The checkout directory chosen from the listing of `checkouts_dir`.
pub open spec fn subdir_resolved<D>(
    list_dirs: D,
    checkouts_dir: &str,
    repo_checkout_name: Seq<char>,
    app_name: Seq<char>,
    r: Option<String>,
) -> bool where D: FnMut(&str) -> Result<Vec<DirEntryInfo>, String> {
    exists|base: Result<Vec<DirEntryInfo>, String>|
        #![trigger call_ensures(list_dirs, (checkouts_dir,), base)]
        call_ensures(list_dirs, (checkouts_dir,), base) && match base {
            Err(_) => r is None,
            Ok(entries) => match base_choice(
                entry_names(entries@),
                checkout_candidates(repo_checkout_name, app_name),
            ) {
                None => r is None,
                Some(i) => exists|s: &str, sub: Result<Vec<DirEntryInfo>, String>|
                    #![trigger call_ensures(list_dirs, (s,), sub)]
                    s@ == entries@[i].path@ && call_ensures(list_dirs, (s,), sub) && newest_subdir(
                        sub,
                        r,
                    ),
            },
        }
}

/// The first candidate name that some directory matches.
pub open spec fn first_found(names: Seq<Seq<char>>, cands: Seq<Seq<char>>) -> Option<int>
    decreases cands.len(),
{
    if cands.len() == 0 {
        None
    } else if matching_indices(names, cands[0]).len() > 0 {
        Some(0)
    } else {
        match first_found(names, cands.drop_first()) {
            Some(c) => Some(c + 1),
            None => None,
        }
    }
}

pub proof fn lemma_first_found(names: Seq<Seq<char>>, cands: Seq<Seq<char>>, c: int)
    requires
        0 <= c <= cands.len(),
        forall|k: int| 0 <= k < c ==> (#[trigger] matching_indices(names, cands[k])).len() == 0,
        c < cands.len() ==> matching_indices(names, cands[c]).len() > 0,
    ensures
        first_found(names, cands) == if c < cands.len() {
            Some(c)
        } else {
            None::<int>
        },
        c < cands.len() ==> base_choice(names, cands) == if matching_indices(names, cands[c]).len()
            == 1 {
            Some(matching_indices(names, cands[c])[0])
        } else {
            None::<int>
        },
        c == cands.len() ==> base_choice(names, cands) is None,
    decreases c,
{
    if c > 0 {
        assert(matching_indices(names, cands[0]).len() == 0);
        assert forall|k: int| 0 <= k < c - 1 implies (#[trigger] matching_indices(
            names,
            cands.drop_first()[k],
        )).len() == 0 by {
            assert(cands.drop_first()[k] == cands[k + 1]);
        }
        if c < cands.len() {
            assert(cands.drop_first()[c - 1] == cands[c]);
        }
        lemma_first_found(names, cands.drop_first(), c - 1);
    }
}

/// `<a> / <b> に対応する checkout ディレクトリが見つかりません`, both names quoted.
pub open spec fn checkout_missing_text(repo_checkout_name: Seq<char>, app_name: Seq<char>) -> Seq<char> {
    debug_str(repo_checkout_name) + " / "@ + debug_str(app_name)
        + " に対応する checkout ディレクトリが見つかりません"@
}

/// `<name> に対応する checkout ディレクトリが複数見つかりました: <paths>`.
pub open spec fn checkout_ambiguous_text(name: Seq<char>, paths: Seq<Seq<char>>) -> Seq<char> {
    debug_str(name) + " に対応する checkout ディレクトリが複数見つかりました: "@ + debug_str_list(
        paths,
    )
}

/// The paths of the listed directories at the given indices.
pub open spec fn paths_of(entries: Seq<DirEntryInfo>, idx: Seq<int>) -> Seq<Seq<char>> {
    idx.map_values(|i: int| entries[i].path@)
}

/// Each way of finding no checkout directory is handed to `log_fn`: an
/// unreadable checkouts directory, no candidate name matching, a candidate
/// matching several directories, an unreadable checkout directory, or one
/// with no sub-directory.
pub open spec fn subdir_reported<L, D>(
    log_fn: L,
    list_dirs: D,
    owner: Seq<char>,
    repo: Seq<char>,
    checkouts_dir: &str,
    repo_checkout_name: Seq<char>,
    app_name: Seq<char>,
    r: Option<String>,
) -> bool where L: FnMut(&str), D: FnMut(&str) -> Result<Vec<DirEntryInfo>, String> {
    r is None ==> exists|base: Result<Vec<DirEntryInfo>, String>|
        #![trigger call_ensures(list_dirs, (checkouts_dir,), base)]
        call_ensures(list_dirs, (checkouts_dir,), base) && match base {
            Err(e) => logged(
                log_fn,
                path_message(
                    owner,
                    repo,
                    checkouts_dir@,
                    "cargo checkouts ディレクトリの読み取りに失敗しました: "@ + e@,
                ),
            ),
            Ok(entries) => {
                let names = entry_names(entries@);
                let cands = checkout_candidates(repo_checkout_name, app_name);
                match first_found(names, cands) {
                    None => logged(
                        log_fn,
                        path_message(
                            owner,
                            repo,
                            checkouts_dir@,
                            checkout_missing_text(repo_checkout_name, app_name),
                        ),
                    ),
                    Some(c) => {
                        let ms = matching_indices(names, cands[c]);
                        if ms.len() > 1 {
                            logged(
                                log_fn,
                                path_message(
                                    owner,
                                    repo,
                                    checkouts_dir@,
                                    checkout_ambiguous_text(cands[c], paths_of(entries@, ms)),
                                ),
                            )
                        } else {
                            exists|s: &str, sub: Result<Vec<DirEntryInfo>, String>|
                                #![trigger call_ensures(list_dirs, (s,), sub)]
                                s@ == entries@[ms[0]].path@ && call_ensures(list_dirs, (s,), sub)
                                    && match sub {
                                    Err(e) => logged(
                                        log_fn,
                                        path_message(
                                            owner,
                                            repo,
                                            s@,
                                            "checkout ディレクトリの読み取りに失敗しました: "@ + e@,
                                        ),
                                    ),
                                    Ok(subs) => subs@.len() == 0 ==> logged(
                                        log_fn,
                                        path_message(
                                            owner,
                                            repo,
                                            s@,
                                            "checkout ディレクトリに候補となる subdir がありません"@,
                                        ),
                                    ),
                                }
                        }
                    },
                }
            },
        }
}

/// The newest checkout sub-directory of the one checkout directory that
/// belongs to the repository (`repo_checkout_name`, else the crate
/// `app_name`).  Unreadable, ambiguous or missing directories give `None`;
/// every step is logged.  `list_dirs` lists the sub-directories of a path.
pub fn resolve_checkout_subdir<L, D>(
    log_fn: &mut L,
    owner: &str,
    repo_name: &str,
    checkouts_dir: &str,
    repo_checkout_name: &str,
    app_name: &str,
    list_dirs: &mut D,
) -> (r: Option<String>) where
    L: FnMut(&str),
    D: FnMut(&str) -> Result<Vec<DirEntryInfo>, String>,

    requires
        forall|s: &str| call_requires(*old(log_fn), (s,)),
        forall|s: &str| call_requires(*old(list_dirs), (s,)),
    ensures
        forall|s: &str| call_requires(*final(log_fn), (s,)),
        *final(log_fn) == *old(log_fn),
        *final(list_dirs) == *old(list_dirs),
        subdir_resolved(*old(list_dirs), checkouts_dir, repo_checkout_name@, app_name@, r),
        subdir_reported(
            *old(log_fn),
            *old(list_dirs),
            owner@,
            repo_name@,
            checkouts_dir,
            repo_checkout_name@,
            app_name@,
            r,
        ),
{
    let ghost ld = *list_dirs;
    let ghost lf = *log_fn;
    let base = list_dirs(checkouts_dir);
    let ghost base_v = base;
    assert(call_ensures(ld, (checkouts_dir,), base_v));
    let entries = match base {
        Ok(entries) => entries,
        Err(err) => {
            let mut msg = String::new();
            push_str(&mut msg, "cargo checkouts ディレクトリの読み取りに失敗しました: ");
            push_str(&mut msg, err.as_str());
            log_cargo_check_path_result(log_fn, owner, repo_name, checkouts_dir, msg.as_str());
            assert(msg@ =~= "cargo checkouts ディレクトリの読み取りに失敗しました: "@ + err@);
            return None;
        },
    };
    let ghost names = entry_names(entries@);
    let cands = unique_checkout_name_candidates(repo_checkout_name, app_name);
    let ghost cv = checkout_candidates(repo_checkout_name@, app_name@);
    assert(cands@.map_values(|s: String| s@) == cv);
    let listing = debug_string_list(cands.as_slice());
    let mut msg = String::new();
    push_str(&mut msg, "checkout dir 名の探索候補=");
    push_str(&mut msg, listing.as_str());
    log_cargo_check_path_result(log_fn, owner, repo_name, checkouts_dir, msg.as_str());

    let mut chosen: Option<usize> = None;
    let mut ci: usize = 0;
    assert(cv.skip(0) =~= cv);
    while ci < cands.len() && chosen.is_none()
        invariant
            ci <= cands@.len(),
            *list_dirs == ld,
            ld == *old(list_dirs),
            call_ensures(ld, (checkouts_dir,), base_v),
            base_v == Ok::<Vec<DirEntryInfo>, String>(entries),
            cands@.map_values(|s: String| s@) == cv,
            cv == checkout_candidates(repo_checkout_name@, app_name@),
            names == entry_names(entries@),
            forall|s: &str| call_requires(*log_fn, (s,)),
            *log_fn == lf,
            lf == *old(log_fn),
            chosen is None ==> forall|k: int|
                0 <= k < ci ==> (#[trigger] matching_indices(names, cv[k])).len() == 0,
            chosen matches Some(i) ==> first_found(names, cv) matches Some(c) && matching_indices(
                names,
                cv[c],
            ) =~= seq![i as int],
            chosen is None ==> base_choice(names, cv) == base_choice(names, cv.skip(ci as int)),
            chosen matches Some(i) ==> base_choice(names, cv) == Some(i as int) && i
                < entries@.len(),
        decreases cands@.len() - ci,
    {
        let cand = cands[ci].as_str();
        assert(cv[ci as int] == cand@);
        let ms = matching_entries(&entries, cand);
        proof {
            assert(cv.skip(ci as int).len() > 0);
            assert(cv.skip(ci as int)[0] == cand@);
            assert(cv.skip(ci as int).drop_first() =~= cv.skip(ci + 1));
        }
        if ms.len() == 0 {
            assert(ms@.map_values(|i: usize| i as int).len() == 0);
            ci += 1;
        } else {
            let found_names = names_at(&entries, &ms);
            let listing = debug_string_list(found_names.as_slice());
            let quoted = debug_string(cand);
            let mut msg = String::new();
            push_str(&mut msg, "checkouts 配下の hash 取得候補 dir 名一覧=");
            push_str(&mut msg, listing.as_str());
            push_str(&mut msg, " (探索名=");
            push_str(&mut msg, quoted.as_str());
            push_str(&mut msg, ")");
            log_cargo_check_path_result(log_fn, owner, repo_name, checkouts_dir, msg.as_str());
            if ms.len() > 1 {
                let paths = paths_at(&entries, &ms);
                let listing = debug_string_list(paths.as_slice());
                let mut msg = String::new();
                push_str(&mut msg, quoted.as_str());
                push_str(&mut msg, " に対応する checkout ディレクトリが複数見つかりました: ");
                push_str(&mut msg, listing.as_str());
                log_cargo_check_path_result(log_fn, owner, repo_name, checkouts_dir, msg.as_str());
                proof {
                    let msi = ms@.map_values(|i: usize| i as int);
                    assert(msi.len() > 1);
                    assert(base_choice(names, cv) is None);
                    lemma_first_found(names, cv, ci as int);
                    assert(paths@.map_values(|p: String| p@) =~= paths_of(entries@, msi));
                    assert(msg@ =~= checkout_ambiguous_text(cv[ci as int], paths_of(entries@, msi)));
                }
                return None;
            }
            proof {
                assert(ms@.map_values(|i: usize| i as int)[0] == ms@[0] as int);
                assert(base_choice(names, cv) == Some(ms@[0] as int));
                lemma_first_found(names, cv, ci as int);
                assert(matching_indices(names, cv[ci as int]) =~= seq![ms@[0] as int]);
            }
            chosen = Some(ms[0]);
            ci += 1;
        }
    }
    let bi = match chosen {
        Some(i) => i,
        None => {
            proof {
                assert(cv.skip(cv.len() as int).len() == 0);
                lemma_first_found(names, cv, cv.len() as int);
            }
            let a = debug_string(repo_checkout_name);
            let b = debug_string(app_name);
            let mut msg = String::new();
            push_str(&mut msg, a.as_str());
            push_str(&mut msg, " / ");
            push_str(&mut msg, b.as_str());
            push_str(&mut msg, " に対応する checkout ディレクトリが見つかりません");
            log_cargo_check_path_result(log_fn, owner, repo_name, checkouts_dir, msg.as_str());
            assert(msg@ =~= checkout_missing_text(repo_checkout_name@, app_name@));
            return None;
        },
    };
    assert(base_choice(names, cv) == Some(bi as int));
    let base_path: &str = entries[bi].path.as_str();
    let sub = list_dirs(base_path);
    let ghost sub_v = sub;
    assert(call_ensures(ld, (base_path,), sub_v));
    let subs = match sub {
        Ok(subs) => subs,
        Err(err) => {
            let mut msg = String::new();
            push_str(&mut msg, "checkout ディレクトリの読み取りに失敗しました: ");
            push_str(&mut msg, err.as_str());
            log_cargo_check_path_result(log_fn, owner, repo_name, base_path, msg.as_str());
            assert(msg@ =~= "checkout ディレクトリの読み取りに失敗しました: "@ + err@);
            assert(newest_subdir(sub_v, None));
            return None;
        },
    };
    let keys = dir_key_list(&subs);
    let perm = sort_indices_stable(&keys);
    let ghost pv = perm@.map_values(|i: usize| i as int);
    proof {
        assert forall|k: int| 0 <= k < perm@.len() implies (#[trigger] perm@[k]) < subs@.len() by {
            assert(pv[k] == perm@[k] as int);
        }
    }
    log_subdir_candidates(log_fn, owner, repo_name, base_path, &subs, &perm);
    if perm.len() == 0 {
        log_cargo_check_path_result(
            log_fn,
            owner,
            repo_name,
            base_path,
            "checkout ディレクトリに候補となる subdir がありません",
        );
        assert(newest_subdir(sub_v, None));
        return None;
    }
    assert(pv[0] == perm@[0] as int);
    let top = &subs[perm[0]];
    let when = format_checkout_dir_modified_at(top.modified_secs, top.modified_nanos);
    let mut msg = String::new();
    push_str(&mut msg, "選択した checkout ディレクトリ=");
    push_str(&mut msg, top.path.as_str());
    push_str(&mut msg, " 更新日時=");
    push_str(&mut msg, when.as_str());
    log_cargo_check_path_result(log_fn, owner, repo_name, top.path.as_str(), msg.as_str());
    let r = Some(top.path.clone());
    assert(newest_subdir(sub_v, r));
    r
}

/// What reading `.crates2.json` gave.
pub enum MetadataRead {
    Read(String),
    NotFound,
    Failed(String),
}

/// The keys of the `installs` object of a `.crates2.json` text, in the
/// order the parser hands them out: `Ok(None)` when there is no such
/// object, `Err` with the parser's message when the text is not JSON.
pub open spec fn crates2_install_keys(content: Seq<char>) -> Result<
    Option<Seq<Seq<char>>>,
    Seq<char>,
> {
    match json_document(content) {
        Ok(doc) => Ok(
            match install_fields(doc) {
                Some(fields) => Some(fields.map_values(|f: JsonField| f.key@)),
                None => None,
            },
        ),
        Err(e) => Err(e),
    }
}

/// The keys of the `installs` object of the `.crates2.json` text `content`.
fn install_keys_of(content: &str) -> (r: Result<Option<Vec<String>>, String>)
    ensures
        match r {
            Ok(Some(keys)) => crates2_install_keys(content@) == Ok::<
                Option<Seq<Seq<char>>>,
                Seq<char>,
            >(Some(keys@.map_values(|k: String| k@))),
            Ok(None) => crates2_install_keys(content@) == Ok::<Option<Seq<Seq<char>>>, Seq<char>>(
                None,
            ),
            Err(e) => crates2_install_keys(content@) == Err::<Option<Seq<Seq<char>>>, Seq<char>>(
                e@,
            ),
        },
{
    let doc = match parse_json(content) {
        Ok(d) => d,
        Err(e) => {
            return Err(e);
        },
    };
    let fields = match installs_of(&doc) {
        Some(f) => f,
        None => {
            return Ok(None);
        },
    };
    let mut keys: Vec<String> = Vec::new();
    let mut i: usize = 0;
    while i < fields.len()
        invariant
            i <= fields@.len(),
            keys@.len() == i,
            forall|j: int| 0 <= j < i ==> (#[trigger] keys@[j])@ == fields@[j].key@,
        decreases fields@.len() - i,
    {
        keys.push(fields[i].key.clone());
        i += 1;
    }
    assert(keys@.map_values(|k: String| k@) =~= fields@.map_values(|f: JsonField| f.key@));
    Ok(Some(keys))
}

/// The first install key that points at `owner/repo`.
pub open spec fn first_matching_key(keys: Seq<Seq<char>>, owner: Seq<char>, repo: Seq<char>) -> Option<
    Seq<char>,
>
    decreases keys.len(),
{
    if keys.len() == 0 {
        None
    } else if entry_matches_repo(keys[0], owner, repo) {
        Some(keys[0])
    } else {
        first_matching_key(keys.drop_first(), owner, repo)
    }
}

/// The first install key that points at `owner/repo_name`.
pub fn find_install_key(keys: &Vec<String>, owner: &str, repo_name: &str) -> (r: Option<usize>)
    ensures
        match first_matching_key(keys@.map_values(|k: String| k@), owner@, repo_name@) {
            Some(k) => r matches Some(i) && i < keys@.len() && keys@[i as int]@ == k,
            None => r is None,
        },
{
    let ghost kv = keys@.map_values(|k: String| k@);
    let mut i: usize = 0;
    assert(kv.skip(0) =~= kv);
    while i < keys.len()
        invariant
            i <= keys@.len(),
            kv == keys@.map_values(|k: String| k@),
            first_matching_key(kv, owner@, repo_name@) == first_matching_key(
                kv.skip(i as int),
                owner@,
                repo_name@,
            ),
        decreases keys@.len() - i,
    {
        proof {
            assert(kv.skip(i as int)[0] == keys@[i as int]@);
            assert(kv.skip(i as int).drop_first() =~= kv.skip(i + 1));
        }
        if cargo_install_entry_matches_repo(keys[i].as_str(), owner, repo_name) {
            return Some(i);
        }
        i += 1;
    }
    None
}

/// Where the lookup of the install entry of a repository ends.
pub ghost enum EntryLookup {
    /// The metadata could not be read or parsed.
    Unreadable,
    /// No install entry points at the repository.
    NotInstalled,
    /// The matching entry could not be taken apart.
    Unparsable,
    /// The matching entry: crate name, git URL, repository name, revision.
    Found(Seq<char>, Seq<char>, Seq<char>, Seq<char>),
}

/// The install entry of `owner/repo` in what was read of `.crates2.json`.
pub open spec fn entry_lookup(metadata: MetadataRead, owner: Seq<char>, repo: Seq<char>) -> EntryLookup {
    match metadata {
        MetadataRead::Read(c) => match crates2_install_keys(c@) {
            Ok(Some(keys)) => match first_matching_key(keys, owner, repo) {
                None => EntryLookup::NotInstalled,
                Some(k) => match parsed_install_entry(k) {
                    None => EntryLookup::Unparsable,
                    Some((cr, u, n, v)) => EntryLookup::Found(cr, u, n, v),
                },
            },
            _ => EntryLookup::Unreadable,
        },
        _ => EntryLookup::Unreadable,
    }
}

/// The HEAD printed by `git rev-parse HEAD`: the trimmed output of a
/// successful run, when not empty.
pub open spec fn head_of(run: Result<CommandRun, String>) -> Option<Seq<char>> {
    match run {
        Ok(r) => if r.success && trim(r.stdout@).len() > 0 {
            Some(trim(r.stdout@))
        } else {
            None
        },
        Err(_) => None,
    }
}

/// The local clone's HEAD as reported: empty when it cannot be read.
pub open spec fn local_or_empty(run: Result<CommandRun, String>) -> Seq<char> {
    match head_of(run) {
        Some(h) => h,
        None => Seq::empty(),
    }
}

/// The comparison once the checkout HEAD `installed` is known: it fails
/// without a remote hash; the local clone's HEAD is only reported (empty
/// when it cannot be read).
pub open spec fn compared_with_remote<G, R>(
    run_git_head: G,
    run_ls_remote: R,
    owner: &str,
    repo_name: &str,
    repo_path: Seq<char>,
    installed: Seq<char>,
    r: CargoGitInstallCheck,
) -> bool where G: FnMut(&str) -> Result<CommandRun, String>, R: FnMut(&str, &str) -> Result<CommandRun, String> {
    exists|run2: Result<CommandRun, String>|
        #![trigger call_ensures(run_ls_remote, (owner, repo_name), run2)]
        call_ensures(run_ls_remote, (owner, repo_name), run2) && match remote_hash_of(run2) {
            None => r is Failed,
            Some(rem) => exists|s2: &str, run3: Result<CommandRun, String>|
                #![trigger call_ensures(run_git_head, (s2,), run3)]
                s2@ == repo_path && call_ensures(run_git_head, (s2,), run3) && (r matches CargoGitInstallCheck::Checked {
                    matches_remote,
                    installed_hash,
                    local_hash,
                    remote_hash,
                } && matches_remote == (installed == rem) && installed_hash@ == installed
                    && remote_hash@ == rem && local_hash@ == local_or_empty(run3)),
        }
}

/// The outcome once the install entry is known: its checkout directory is
/// looked up (by repository name, then crate name), its HEAD read and
/// compared with the remote.
pub open spec fn found_outcome<D, G, R>(
    owner: &str,
    repo_name: &str,
    checkouts_dir: &str,
    repo_path: Seq<char>,
    crate_name: Seq<char>,
    checkout_name: Seq<char>,
    list_dirs: D,
    run_git_head: G,
    run_ls_remote: R,
    r: CargoGitInstallCheck,
) -> bool where
    D: FnMut(&str) -> Result<Vec<DirEntryInfo>, String>,
    G: FnMut(&str) -> Result<CommandRun, String>,
    R: FnMut(&str, &str) -> Result<CommandRun, String>,
 {
    exists|sub: Option<String>|
        #![trigger subdir_resolved(list_dirs, checkouts_dir, checkout_name, crate_name, sub)]
        subdir_resolved(list_dirs, checkouts_dir, checkout_name, crate_name, sub) && match sub {
            None => r is Failed,
            Some(d) => exists|s: &str, run1: Result<CommandRun, String>|
                #![trigger call_ensures(run_git_head, (s,), run1)]
                s@ == d@ && call_ensures(run_git_head, (s,), run1) && match head_of(run1) {
                    None => r is Failed,
                    Some(inst) => compared_with_remote(
                        run_git_head,
                        run_ls_remote,
                        owner,
                        repo_name,
                        repo_path,
                        inst,
                        r,
                    ),
                },
        }
}

/// The outcome of the comparison for `owner/repo_name`, given what the
/// handed-in directory listings and commands returned.
pub open spec fn git_install_outcome<D, G, R>(
    owner: &str,
    repo_name: &str,
    checkouts_dir: &str,
    repo_path: Seq<char>,
    metadata: MetadataRead,
    list_dirs: D,
    run_git_head: G,
    run_ls_remote: R,
    r: CargoGitInstallCheck,
) -> bool where
    D: FnMut(&str) -> Result<Vec<DirEntryInfo>, String>,
    G: FnMut(&str) -> Result<CommandRun, String>,
    R: FnMut(&str, &str) -> Result<CommandRun, String>,
 {
    match entry_lookup(metadata, owner@, repo_name@) {
        EntryLookup::Unreadable => r is Failed,
        EntryLookup::Unparsable => r is Failed,
        EntryLookup::NotInstalled => r is NotInstalled,
        EntryLookup::Found(crate_name, _url, name, _rev) => found_outcome(
            owner,
            repo_name,
            checkouts_dir,
            repo_path,
            crate_name,
            name,
            list_dirs,
            run_git_head,
            run_ls_remote,
            r,
        ),
    }
}

/// The trimmed output of a run.
fn trimmed_stdout(run: &CommandRun) -> (r: String)
    ensures
        r@ == trim(run.stdout@),
{
    trim_str(run.stdout.as_str())
}

/// Logs the hash summary and the verdict, and gives the checked outcome.
pub fn finish_cargo_git_install_check<L: FnMut(&str)>(
    log_fn: &mut L,
    owner: &str,
    repo_name: &str,
    installed_hash: String,
    local_hash: String,
    remote_hash: String,
) -> (r: CargoGitInstallCheck)
    requires
        forall|s: &str| call_requires(*old(log_fn), (s,)),
    ensures
        forall|s: &str| call_requires(*final(log_fn), (s,)),
        r matches CargoGitInstallCheck::Checked { matches_remote, installed_hash: i, local_hash: l, remote_hash: m }
            && matches_remote == (installed_hash@ == remote_hash@) && i@ == installed_hash@ && l@
            == local_hash@ && m@ == remote_hash@,
{
    let summary = format_cargo_hash_summary(
        remote_hash.as_str(),
        installed_hash.as_str(),
        local_hash.as_str(),
    );
    log_cargo_check_result(log_fn, owner, repo_name, summary.as_str());
    let same = str_eq(installed_hash.as_str(), remote_hash.as_str());
    let mut msg = String::new();
    push_str(&mut msg, "cargo install と remote の比較結果=");
    if same {
        push_str(&mut msg, "一致");
    } else {
        push_str(&mut msg, "不一致");
    }
    log_cargo_check_result(log_fn, owner, repo_name, msg.as_str());
    CargoGitInstallCheck::Checked { matches_remote: same, installed_hash, local_hash, remote_hash }
}

/// Reads the HEAD of the local clone for the log and finishes the
/// comparison; a clone that cannot be read leaves the local hash empty.
fn finish_with_local_head<L, G>(
    log_fn: &mut L,
    owner: &str,
    repo_name: &str,
    repo_path: &str,
    run_git_head: &mut G,
    installed_hash: String,
    remote_hash: String,
) -> (r: CargoGitInstallCheck) where L: FnMut(&str), G: FnMut(&str) -> Result<CommandRun, String>
    requires
        forall|s: &str| call_requires(*old(log_fn), (s,)),
        forall|s: &str| call_requires(*old(run_git_head), (s,)),
    ensures
        forall|s: &str| call_requires(*final(log_fn), (s,)),
        *final(run_git_head) == *old(run_git_head),
        exists|s2: &str, run3: Result<CommandRun, String>|
            #![trigger call_ensures(*old(run_git_head), (s2,), run3)]
            s2@ == repo_path@ && call_ensures(*old(run_git_head), (s2,), run3) && (r matches CargoGitInstallCheck::Checked {
                matches_remote,
                installed_hash: i,
                local_hash: l,
                remote_hash: m,
            } && matches_remote == (installed_hash@ == remote_hash@) && i@ == installed_hash@ && m@
                == remote_hash@ && l@ == local_or_empty(run3)),
{
    let command = format_git_rev_parse_head_command(repo_path);
    let mut msg = String::new();
    push_str(&mut msg, "ローカルリポジトリのコミットハッシュ取得を開始します: コマンド=");
    push_str(&mut msg, command.as_str());
    log_cargo_check_result(log_fn, owner, repo_name, msg.as_str());
    let res = run_git_head(repo_path);
    let ghost res_v = res;
    let run = match res {
        Ok(run) => run,
        Err(err) => {
            let mut msg = String::new();
            push_str(
                &mut msg,
                "ローカルリポジトリのコミットハッシュ取得に失敗しましたが、cargo install と remote の判定は継続します: コマンド=",
            );
            push_str(&mut msg, command.as_str());
            push_str(&mut msg, ": ");
            push_str(&mut msg, err.as_str());
            log_cargo_check_result(log_fn, owner, repo_name, msg.as_str());
            return finish_cargo_git_install_check(
                log_fn,
                owner,
                repo_name,
                installed_hash,
                String::new(),
                remote_hash,
            );
        },
    };
    log_cargo_check_command_result(log_fn, owner, repo_name, command.as_str(), &run);
    if !run.success {
        log_cargo_check_result(
            log_fn,
            owner,
            repo_name,
            "ローカルリポジトリのコミットハッシュ取得に失敗しましたが、cargo install と remote の判定は継続します",
        );
        return finish_cargo_git_install_check(
            log_fn,
            owner,
            repo_name,
            installed_hash,
            String::new(),
            remote_hash,
        );
    }
    let local_hash = trimmed_stdout(&run);
    if local_hash.as_str().is_empty() {
        log_cargo_check_result(
            log_fn,
            owner,
            repo_name,
            "ローカルリポジトリの HEAD ハッシュが空ですが、cargo install と remote の判定は継続します",
        );
        return finish_cargo_git_install_check(
            log_fn,
            owner,
            repo_name,
            installed_hash,
            String::new(),
            remote_hash,
        );
    }
    let mut msg = String::new();
    push_str(&mut msg, "ローカルリポジトリのコミットハッシュを取得しました: ");
    push_str(&mut msg, local_hash.as_str());
    log_cargo_check_result(log_fn, owner, repo_name, msg.as_str());
    finish_cargo_git_install_check(log_fn, owner, repo_name, installed_hash, local_hash, remote_hash)
}

/// Compares the `cargo install --git` checkout of `owner/repo_name` with
/// the remote `main`.
///
/// `metadata` is what reading `metadata_path` (`.crates2.json`) gave;
/// `list_dirs` lists the sub-directories of a path (used under
/// `checkouts_dir`), `run_git_head` runs `git -C <path> rev-parse HEAD` and
/// `run_ls_remote` runs `git ls-remote` for `owner/repo`.  The local clone at
/// `repo_path` is only read for the log.  Every step is logged.
#[verifier::rlimit(40)]
pub fn check_cargo_git_install_inner_with_resolver<L, D, G, R>(
    owner: &str,
    repo_name: &str,
    metadata_path: &str,
    checkouts_dir: &str,
    repo_path: &str,
    metadata: MetadataRead,
    log_fn: &mut L,
    list_dirs: &mut D,
    run_git_head: &mut G,
    run_ls_remote: &mut R,
) -> (r: CargoGitInstallCheck) where
    L: FnMut(&str),
    D: FnMut(&str) -> Result<Vec<DirEntryInfo>, String>,
    G: FnMut(&str) -> Result<CommandRun, String>,
    R: FnMut(&str, &str) -> Result<CommandRun, String>,

    requires
        forall|s: &str| call_requires(*old(log_fn), (s,)),
        entry_lookup(metadata, owner@, repo_name@) is Found ==> forall|s: &str|
            call_requires(*old(list_dirs), (s,)),
        entry_lookup(metadata, owner@, repo_name@) is Found ==> forall|s: &str|
            call_requires(*old(run_git_head), (s,)),
        entry_lookup(metadata, owner@, repo_name@) is Found ==> forall|a: &str, b: &str|
            call_requires(*old(run_ls_remote), (a, b)),
    ensures
        forall|s: &str| call_requires(*final(log_fn), (s,)),
        git_install_outcome(
            owner,
            repo_name,
            checkouts_dir,
            repo_path@,
            metadata,
            *old(list_dirs),
            *old(run_git_head),
            *old(run_ls_remote),
            r,
        ),
{
    let ghost ld = *list_dirs;
    let ghost gh = *run_git_head;
    let ghost rl = *run_ls_remote;
    let ghost md = metadata;
    log_cargo_check_result(
        log_fn,
        owner,
        repo_name,
        "cargo install メタデータ内の対象リポジトリ情報の確認を開始します",
    );
    let content = match metadata {
        MetadataRead::Read(content) => content,
        MetadataRead::NotFound => {
            log_cargo_check_path_result(
                log_fn,
                owner,
                repo_name,
                metadata_path,
                "cargo install メタデータファイルが見つからないため、cargo install の確認は判定不能です",
            );
            return CargoGitInstallCheck::Failed;
        },
        MetadataRead::Failed(err) => {
            let mut msg = String::new();
            push_str(&mut msg, "cargo install メタデータファイルの読み取りに失敗しました: ");
            push_str(&mut msg, err.as_str());
            log_cargo_check_path_result(log_fn, owner, repo_name, metadata_path, msg.as_str());
            return CargoGitInstallCheck::Failed;
        },
    };
    let keys = match install_keys_of(content.as_str()) {
        Ok(Some(keys)) => keys,
        Ok(None) => {
            log_cargo_check_path_result(
                log_fn,
                owner,
                repo_name,
                metadata_path,
                "cargo install メタデータファイルに installs オブジェクトがありません",
            );
            return CargoGitInstallCheck::Failed;
        },
        Err(err) => {
            let mut msg = String::new();
            push_str(&mut msg, "cargo install メタデータファイルの解析に失敗しました: ");
            push_str(&mut msg, err.as_str());
            log_cargo_check_path_result(log_fn, owner, repo_name, metadata_path, msg.as_str());
            return CargoGitInstallCheck::Failed;
        },
    };
    let matched = match find_install_key(&keys, owner, repo_name) {
        Some(i) => keys[i].as_str(),
        None => {
            log_cargo_check_path_result(
                log_fn,
                owner,
                repo_name,
                metadata_path,
                "cargo install メタデータ内に対象リポジトリが見つからないため、cargo install の確認をスキップします",
            );
            return CargoGitInstallCheck::NotInstalled;
        },
    };
    let meta = match parse_cargo_install_entry(matched) {
        Some(m) => m,
        None => {
            log_cargo_check_result(
                log_fn,
                owner,
                repo_name,
                "一致した cargo install エントリから crate 名、git repo 名、または metadata revision を抽出できません",
            );
            return CargoGitInstallCheck::Failed;
        },
    };
    let mut msg = String::new();
    push_str(&mut msg, "一致した cargo install エントリ=");
    push_str(&mut msg, debug_string(matched).as_str());
    push_str(&mut msg, "、一致した crate 名=");
    push_str(&mut msg, debug_string(meta.crate_name.as_str()).as_str());
    push_str(&mut msg, "、一致した git URL=");
    push_str(&mut msg, debug_string(meta.git_url.as_str()).as_str());
    push_str(&mut msg, "、一致した git repo 名=");
    push_str(&mut msg, debug_string(meta.repo_name.as_str()).as_str());
    push_str(&mut msg, "、metadata revision=");
    push_str(&mut msg, debug_string(meta.metadata_revision.as_str()).as_str());
    push_str(&mut msg, "、metadata revision source=.crates2.json");
    log_cargo_check_path_result(log_fn, owner, repo_name, metadata_path, msg.as_str());
    log_cargo_check_result(
        log_fn,
        owner,
        repo_name,
        "cargo install メタデータに対象リポジトリの情報があるため、cargo check の対象です",
    );
    proof {
        assert(entry_lookup(md, owner@, repo_name@) == EntryLookup::Found(
            meta.crate_name@,
            meta.git_url@,
            meta.repo_name@,
            meta.metadata_revision@,
        ));
    }
    check_installed_checkout(
        owner,
        repo_name,
        checkouts_dir,
        repo_path,
        &meta,
        log_fn,
        list_dirs,
        run_git_head,
        run_ls_remote,
    )
}

/// Looks up the checkout of a known install entry, reads its HEAD and
/// compares it with the remote.
fn check_installed_checkout<L, D, G, R>(
    owner: &str,
    repo_name: &str,
    checkouts_dir: &str,
    repo_path: &str,
    meta: &CargoInstallMetadata,
    log_fn: &mut L,
    list_dirs: &mut D,
    run_git_head: &mut G,
    run_ls_remote: &mut R,
) -> (r: CargoGitInstallCheck) where
    L: FnMut(&str),
    D: FnMut(&str) -> Result<Vec<DirEntryInfo>, String>,
    G: FnMut(&str) -> Result<CommandRun, String>,
    R: FnMut(&str, &str) -> Result<CommandRun, String>,

    requires
        forall|s: &str| call_requires(*old(log_fn), (s,)),
        forall|s: &str| call_requires(*old(list_dirs), (s,)),
        forall|s: &str| call_requires(*old(run_git_head), (s,)),
        forall|a: &str, b: &str| call_requires(*old(run_ls_remote), (a, b)),
    ensures
        forall|s: &str| call_requires(*final(log_fn), (s,)),
        found_outcome(
            owner,
            repo_name,
            checkouts_dir,
            repo_path@,
            meta.crate_name@,
            meta.repo_name@,
            *old(list_dirs),
            *old(run_git_head),
            *old(run_ls_remote),
            r,
        ),
{
    let ghost ld = *list_dirs;
    let ghost gh = *run_git_head;
    let ghost rl = *run_ls_remote;
    let sub = resolve_checkout_subdir(
        log_fn,
        owner,
        repo_name,
        checkouts_dir,
        meta.repo_name.as_str(),
        meta.crate_name.as_str(),
        list_dirs,
    );
    let ghost sub_v = sub;
    assert(subdir_resolved(ld, checkouts_dir, meta.repo_name@, meta.crate_name@, sub_v));
    let sub_dir = match sub {
        Some(d) => d,
        None => {
            return CargoGitInstallCheck::Failed;
        },
    };
    let command = format_git_rev_parse_head_command(sub_dir.as_str());
    let mut msg = String::new();
    push_str(&mut msg, "インストール済み checkout のコミットハッシュ取得を開始します: コマンド=");
    push_str(&mut msg, command.as_str());
    log_cargo_check_result(log_fn, owner, repo_name, msg.as_str());
    let sd: &str = sub_dir.as_str();
    let res = run_git_head(sd);
    let ghost res_v = res;
    assert(call_ensures(gh, (sd,), res_v));
    let run = match res {
        Ok(run) => run,
        Err(err) => {
            let mut msg = String::new();
            push_str(&mut msg, "コマンドの起動に失敗しました: コマンド=");
            push_str(&mut msg, command.as_str());
            push_str(&mut msg, ": ");
            push_str(&mut msg, err.as_str());
            log_cargo_check_result(log_fn, owner, repo_name, msg.as_str());
            return CargoGitInstallCheck::Failed;
        },
    };
    log_cargo_check_command_result(log_fn, owner, repo_name, command.as_str(), &run);
    if !run.success {
        return CargoGitInstallCheck::Failed;
    }
    let installed_hash = trimmed_stdout(&run);
    if installed_hash.as_str().is_empty() {
        log_cargo_check_result(
            log_fn,
            owner,
            repo_name,
            "インストール済み checkout の HEAD ハッシュが空です",
        );
        return CargoGitInstallCheck::Failed;
    }
    assert(head_of(res_v) == Some(installed_hash@));
    let mut msg = String::new();
    push_str(&mut msg, "インストール済み checkout のコミットハッシュを取得しました: ");
    push_str(&mut msg, installed_hash.as_str());
    log_cargo_check_result(log_fn, owner, repo_name, msg.as_str());
    if !str_eq(meta.metadata_revision.as_str(), installed_hash.as_str()) {
        let mut msg = String::new();
        push_str(&mut msg, "参考: metadata revision と checkout HEAD が一致しません: metadata revision=");
        push_str(&mut msg, meta.metadata_revision.as_str());
        push_str(&mut msg, " checkout HEAD=");
        push_str(&mut msg, installed_hash.as_str());
        push_str(&mut msg, " 判定には checkout HEAD を使用します");
        log_cargo_check_result(log_fn, owner, repo_name, msg.as_str());
    }
    let remote = fetch_remote_main_hash(log_fn, owner, repo_name, run_ls_remote);
    let remote_hash = match remote {
        Some(h) => h,
        None => {
            assert(compared_with_remote(gh, rl, owner, repo_name, repo_path@, installed_hash@, CargoGitInstallCheck::Failed));
            return CargoGitInstallCheck::Failed;
        },
    };
    let r = finish_with_local_head(
        log_fn,
        owner,
        repo_name,
        repo_path,
        run_git_head,
        installed_hash,
        remote_hash,
    );
    assert(compared_with_remote(gh, rl, owner, repo_name, repo_path@, head_of(res_v)->Some_0, r));
    r
}

/// The comparison with its start and end logged; the end names the verdict.
pub fn check_cargo_git_install_with_resolver_and_logger<L, D, G, R>(
    owner: &str,
    repo_name: &str,
    metadata_path: &str,
    checkouts_dir: &str,
    repo_path: &str,
    metadata: MetadataRead,
    log_fn: L,
    list_dirs: D,
    run_git_head: G,
    run_ls_remote: R,
) -> (r: CargoGitInstallCheck) where
    L: FnMut(&str),
    D: FnMut(&str) -> Result<Vec<DirEntryInfo>, String>,
    G: FnMut(&str) -> Result<CommandRun, String>,
    R: FnMut(&str, &str) -> Result<CommandRun, String>,

    requires
        forall|s: &str| call_requires(log_fn, (s,)),
        forall|s: &str| call_requires(list_dirs, (s,)),
        forall|s: &str| call_requires(run_git_head, (s,)),
        forall|a: &str, b: &str| call_requires(run_ls_remote, (a, b)),
    ensures
        git_install_outcome(
            owner,
            repo_name,
            checkouts_dir,
            repo_path@,
            metadata,
            list_dirs,
            run_git_head,
            run_ls_remote,
            r,
        ),
{
    let mut log_fn = log_fn;
    let mut list_dirs = list_dirs;
    let mut run_git_head = run_git_head;
    let mut run_ls_remote = run_ls_remote;
    log_cargo_check_result(&mut log_fn, owner, repo_name, "開始: cargo check を開始します");
    let result = check_cargo_git_install_inner_with_resolver(
        owner,
        repo_name,
        metadata_path,
        checkouts_dir,
        repo_path,
        metadata,
        &mut log_fn,
        &mut list_dirs,
        &mut run_git_head,
        &mut run_ls_remote,
    );
    let mut msg = String::new();
    match &result {
        CargoGitInstallCheck::Checked { installed_hash, remote_hash, .. } => {
            push_str(&mut msg, "終了: cargo check を完了しました (cargo install と remote の比較結果=");
            if str_eq(installed_hash.as_str(), remote_hash.as_str()) {
                push_str(&mut msg, "一致");
            } else {
                push_str(&mut msg, "不一致");
            }
            push_str(&mut msg, ")");
        },
        CargoGitInstallCheck::NotInstalled => {
            push_str(&mut msg, "終了: cargo check を完了しました (チェック対象外)");
        },
        CargoGitInstallCheck::Failed => {
            push_str(&mut msg, "終了: cargo check を完了しました (判定不能)");
        },
    }
    log_cargo_check_result(&mut log_fn, owner, repo_name, msg.as_str());
    result
}

} // verus!
