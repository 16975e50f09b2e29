//! Pulling a clone (stashing local changes around the pull) and comparing
//! its HEAD with the upstream's.  `run_git(path, args)` runs
//! `git -C path args`.
use vstd::prelude::*;

use crate::cargo_git::CommandRun;
use crate::git_status::{
    arg_views, build_repo_path, git_dir_of, local_changes_from, porcelain_summary, repo_path,
};
use crate::cargo_log::logged;
use crate::text::{lines, push_str, trim, trim_str};

verus! {

broadcast use vstd::function::group_function_axioms;

/// What one `git` call gives: its trimmed output on success; on failure its
/// trimmed error output (its output when that is empty); when it could not
/// be started, `<context>: <cause>`.
pub open spec fn git_result(run: Result<CommandRun, String>, context: Seq<char>) -> Result<
    Seq<char>,
    Seq<char>,
> {
    match run {
        Ok(o) => if o.success {
            Ok(trim(o.stdout@))
        } else if trim(o.stderr@).len() == 0 {
            Err(trim(o.stdout@))
        } else {
            Err(trim(o.stderr@))
        },
        Err(cause) => Err(context + ": "@ + cause@),
    }
}

/// The view of a result of strings.
pub open spec fn result_view(r: Result<String, String>) -> Result<Seq<char>, Seq<char>> {
    match r {
        Ok(s) => Ok(s@),
        Err(e) => Err(e@),
    }
}

/// The outcome of one `git` call as a result.
pub fn run_git_result(run: Result<CommandRun, String>, context: &str) -> (r: Result<String, String>)
    ensures
        result_view(r) == git_result(run, context@),
{
    match run {
        Ok(o) => {
            let out = trim_str(o.stdout.as_str());
            if o.success {
                Ok(out)
            } else {
                let err = trim_str(o.stderr.as_str());
                if err.as_str().is_empty() {
                    Err(out)
                } else {
                    Err(err)
                }
            }
        },
        Err(cause) => {
            let mut s = String::new();
            push_str(&mut s, context);
            push_str(&mut s, ": ");
            push_str(&mut s, cause.as_str());
            Err(s)
        },
    }
}

/// Runs `git -C path args` and gives its outcome as a result.
pub fn run_git<G>(repo_path: &str, args: &Vec<String>, context_msg: &str, run: &mut G) -> (r: Result<
    String,
    String,
>) where G: FnMut(&str, &Vec<String>) -> Result<CommandRun, String>
    requires
        forall|p: &str, a: &Vec<String>| call_requires(*old(run), (p, a)),
    ensures
        *final(run) == *old(run),
        exists|o: Result<CommandRun, String>|
            call_ensures(*old(run), (repo_path, args), o) && result_view(r) == git_result(
                o,
                context_msg@,
            ),
{
    let o = run(repo_path, args);
    let ghost ov = o;
    run_git_result(o, context_msg)
}

/// A list of two arguments.
fn args2(a: &str, b: &str) -> (r: Vec<String>)
    ensures
        arg_views(r) == seq![a@, b@],
{
    let mut r: Vec<String> = Vec::new();
    r.push(a.to_owned());
    r.push(b.to_owned());
    assert(arg_views(r) =~= seq![a@, b@]);
    r
}

/// The arguments that stash local changes, untracked files included.
fn stash_push_args() -> (r: Vec<String>)
    ensures
        arg_views(r) == stash_push_views(),
{
    let mut r: Vec<String> = Vec::new();
    r.push("stash".to_owned());
    r.push("push".to_owned());
    r.push("--include-untracked".to_owned());
    r.push("-m".to_owned());
    r.push("catrepo auto-pull".to_owned());
    assert(arg_views(r) =~= stash_push_views());
    r
}

/// The error of a pull that was undone: the pull's error and what became of
/// the stashed changes.
pub open spec fn pull_error_after_stash(pull_err: Seq<char>, pop: Result<Seq<char>, Seq<char>>) -> Seq<
    char,
> {
    match pop {
        Ok(_) => pull_err + "; stashed local changes were restored"@,
        Err(pop_err) => pull_err + "; additionally failed to restore stashed changes: "@ + pop_err,
    }
}

/// What a `git status --porcelain` run said: nothing when it failed.
pub open spec fn status_summary(st: Result<CommandRun, String>) -> (Seq<Seq<char>>, bool, bool, bool) {
    match st {
        Ok(o) => if o.success {
            porcelain_summary(lines(o.stdout@))
        } else {
            (seq![], false, false, false)
        },
        Err(_) => (seq![], false, false, false),
    }
}

/// Runs git through `run`, keeping as ghost state each command it was
/// asked to run, in order: the directory, the arguments (as views) and what
/// came back.
pub struct GitRunner<G> {
    pub run: G,
    pub calls: Ghost<Seq<(Seq<char>, Seq<Seq<char>>, Result<CommandRun, String>)>>,
}

impl<G: FnMut(&str, &Vec<String>) -> Result<CommandRun, String>> GitRunner<G> {
    /// A runner that has run nothing yet.
    pub fn new(run: G) -> (r: Self)
        ensures
            r.run == run,
            r.calls@ == Seq::<(Seq<char>, Seq<Seq<char>>, Result<CommandRun, String>)>::empty(),
    {
        GitRunner { run, calls: Ghost(Seq::empty()) }
    }

    /// Runs `git -C repo_path args` once and records it.
    pub fn call(&mut self, repo_path: &str, args: &Vec<String>) -> (r: Result<CommandRun, String>)
        requires
            call_requires(old(self).run, (repo_path, args)),
        ensures
            final(self).run == old(self).run,
            call_ensures(old(self).run, (repo_path, args), r),
            final(self).calls@ == old(self).calls@.push((repo_path@, arg_views(*args), r)),
    {
        let r = (self.run)(repo_path, args);
        proof {
            self.calls@ = self.calls@.push((repo_path@, arg_views(*args), r));
        }
        r
    }
}

/// A recorded command was run through `run` and gave what was recorded.
pub open spec fn ran<G: FnMut(&str, &Vec<String>) -> Result<CommandRun, String>>(
    run: G,
    c: (Seq<char>, Seq<Seq<char>>, Result<CommandRun, String>),
) -> bool {
    exists|p: &str, a: Vec<String>|
        #![trigger call_ensures(run, (p, &a), c.2)]
        p@ == c.0 && arg_views(a) == c.1 && call_ensures(run, (p, &a), c.2)
}

/// `status --porcelain`.
pub open spec fn status_views() -> Seq<Seq<char>> {
    seq!["status"@, "--porcelain"@]
}

/// `pull --ff-only`.
pub open spec fn pull_views() -> Seq<Seq<char>> {
    seq!["pull"@, "--ff-only"@]
}

/// `stash pop`.
pub open spec fn pop_views() -> Seq<Seq<char>> {
    seq!["stash"@, "pop"@]
}

/// The arguments that stash local changes, as views.
pub open spec fn stash_push_views() -> Seq<Seq<char>> {
    seq!["stash"@, "push"@, "--include-untracked"@, "-m"@, "catrepo auto-pull"@]
}

/// The commands a pull of the clone at `p` ran, in order, and what it
/// gave: `status --porcelain` first; nothing more on a conflict, which is
/// refused; `pull --ff-only` on a clean clone; otherwise `stash push`, and
/// when that succeeded `pull --ff-only` and `stash pop` (the pop runs
/// whether or not the pull succeeded, and the pull's error names what
/// became of the stashed changes).
pub open spec fn pull_record(
    p: Seq<char>,
    made: Seq<(Seq<char>, Seq<Seq<char>>, Result<CommandRun, String>)>,
    r: Result<Seq<char>, Seq<char>>,
) -> bool {
    &&& made.len() >= 1
    &&& forall|k: int| 0 <= k < made.len() ==> (#[trigger] made[k]).0 == p
    &&& made[0].1 == status_views()
    &&& {
        let s = status_summary(made[0].2);
        if s.1 {
            made.len() == 1 && r == Err::<Seq<char>, Seq<char>>(
                "repository has unresolved conflicts"@,
            )
        } else if !(s.2 || s.3) {
            made.len() == 2 && made[1].1 == pull_views() && r == git_result(
                made[1].2,
                "git pull failed"@,
            )
        } else {
            &&& made.len() >= 2
            &&& made[1].1 == stash_push_views()
            &&& match git_result(made[1].2, "git stash push failed"@) {
                Err(e) => made.len() == 2 && r == Err::<Seq<char>, Seq<char>>(e),
                Ok(_) => {
                    &&& made.len() == 4
                    &&& made[2].1 == pull_views()
                    &&& made[3].1 == pop_views()
                    &&& match git_result(made[2].2, "git pull failed"@) {
                        Ok(_) => r == git_result(made[3].2, "git stash pop failed"@),
                        Err(e) => r == Err::<Seq<char>, Seq<char>>(
                            pull_error_after_stash(
                                e,
                                git_result(made[3].2, "git stash pop failed"@),
                            ),
                        ),
                    }
                },
            }
        }
    }
}

/// Runs `git -C repo_path args` through `runner` and gives its outcome as
/// a result.
fn run_git_recorded<G>(
    repo_path: &str,
    args: &Vec<String>,
    context_msg: &str,
    runner: &mut GitRunner<G>,
) -> (r: Result<String, String>) where G: FnMut(&str, &Vec<String>) -> Result<CommandRun, String>
    requires
        forall|p: &str, a: &Vec<String>| call_requires(old(runner).run, (p, a)),
    ensures
        final(runner).run == old(runner).run,
        final(runner).calls@ == old(runner).calls@.push(final(runner).calls@.last()),
        final(runner).calls@.last().0 == repo_path@,
        final(runner).calls@.last().1 == arg_views(*args),
        call_ensures(old(runner).run, (repo_path, args), final(runner).calls@.last().2),
        result_view(r) == git_result(final(runner).calls@.last().2, context_msg@),
{
    let o = runner.call(repo_path, args);
    run_git_result(o, context_msg)
}

/// Pulls the clone of `repo_name` under `base_dir` with `--ff-only`,
/// stashing local changes (untracked files included) around the pull.
/// A clone with unresolved conflicts is not touched: only its status is
/// read.
pub fn git_pull<G>(base_dir: &str, repo_name: &str, runner: &mut GitRunner<G>) -> (r: Result<
    String,
    String,
>) where G: FnMut(&str, &Vec<String>) -> Result<CommandRun, String>
    requires
        forall|p: &str, a: &Vec<String>| call_requires(old(runner).run, (p, a)),
    ensures
        final(runner).run == old(runner).run,
        final(runner).calls@.take(old(runner).calls@.len() as int) == old(runner).calls@,
        forall|k: int|
            old(runner).calls@.len() <= k < final(runner).calls@.len() ==> ran(
                old(runner).run,
                #[trigger] final(runner).calls@[k],
            ),
        pull_record(
            repo_path(base_dir@, repo_name@),
            final(runner).calls@.skip(old(runner).calls@.len() as int),
            result_view(r),
        ),
{
    let ghost c0 = runner.calls@;
    let ghost g = runner.run;
    let path = build_repo_path(base_dir, repo_name);
    let p: &str = path.as_str();
    let a = args2("status", "--porcelain");
    let st = runner.call(p, &a);
    let ghost stv = st;
    let changes = local_changes_from(st);
    let ghost s = status_summary(stv);
    assert(changes.has_conflict == s.1 && changes.has_staged == s.2 && changes.has_modified == s.3);
    let ghost x0 = runner.calls@.last();
    assert(call_ensures(g, (p, &a), stv));
    assert(x0 == (p@, arg_views(a), stv));
    assert(p@ == x0.0 && arg_views(a) == x0.1 && call_ensures(g, (p, &a), x0.2));
    assert(runner.calls@ =~= c0 + seq![x0]);
    assert(ran(g, x0));
    if changes.has_conflict {
        let r = Err("repository has unresolved conflicts".to_owned());
        proof {
            lemma_recorded(g, c0, seq![x0], runner.calls@);
        }
        return r;
    }
    let pull_args = args2("pull", "--ff-only");
    if !(changes.has_staged || changes.has_modified) {
        let r = run_git_recorded(p, &pull_args, "git pull failed", runner);
        let ghost x1 = runner.calls@.last();
        proof {
            assert(ran(g, x1));
            assert(runner.calls@ =~= c0 + seq![x0, x1]);
            lemma_recorded(g, c0, seq![x0, x1], runner.calls@);
        }
        return r;
    }
    let stash_args = stash_push_args();
    let stashed = run_git_recorded(p, &stash_args, "git stash push failed", runner);
    let ghost x1 = runner.calls@.last();
    proof {
        assert(ran(g, x1));
        assert(runner.calls@ =~= c0 + seq![x0, x1]);
    }
    match stashed {
        Err(e) => {
            let r: Result<String, String> = Err(e);
            proof {
                lemma_recorded(g, c0, seq![x0, x1], runner.calls@);
            }
            return r;
        },
        Ok(_) => {},
    }
    let pop_args = args2("stash", "pop");
    let pulled = run_git_recorded(p, &pull_args, "git pull failed", runner);
    let ghost x2 = runner.calls@.last();
    proof {
        assert(ran(g, x2));
        assert(runner.calls@ =~= c0 + seq![x0, x1, x2]);
    }
    let popped = run_git_recorded(p, &pop_args, "git stash pop failed", runner);
    let ghost x3 = runner.calls@.last();
    proof {
        assert(ran(g, x3));
        assert(runner.calls@ =~= c0 + seq![x0, x1, x2, x3]);
        lemma_recorded(g, c0, seq![x0, x1, x2, x3], runner.calls@);
    }
    match pulled {
        Err(err) => {
            let mut msg = err;
            match popped {
                Ok(_) => {
                    push_str(&mut msg, "; stashed local changes were restored");
                },
                Err(pop_err) => {
                    push_str(&mut msg, "; additionally failed to restore stashed changes: ");
                    push_str(&mut msg, pop_err.as_str());
                },
            }
            Err(msg)
        },
        Ok(_) => popped,
    }
}

/// Calls recorded after `c0`, each of which ran.
proof fn lemma_recorded<G: FnMut(&str, &Vec<String>) -> Result<CommandRun, String>>(
    g: G,
    c0: Seq<(Seq<char>, Seq<Seq<char>>, Result<CommandRun, String>)>,
    made: Seq<(Seq<char>, Seq<Seq<char>>, Result<CommandRun, String>)>,
    calls: Seq<(Seq<char>, Seq<Seq<char>>, Result<CommandRun, String>)>,
)
    requires
        calls == c0 + made,
        forall|k: int| 0 <= k < made.len() ==> ran(g, #[trigger] made[k]),
    ensures
        calls.take(c0.len() as int) == c0,
        calls.skip(c0.len() as int) == made,
        forall|k: int| c0.len() <= k < calls.len() ==> ran(g, #[trigger] calls[k]),
{
    assert(calls.take(c0.len() as int) =~= c0);
    assert(calls.skip(c0.len() as int) =~= made);
    assert forall|k: int| c0.len() <= k < calls.len() implies ran(g, #[trigger] calls[k]) by {
        assert(calls[k] == made[k - c0.len()]);
    }
}

/// The HEAD of a successful `git rev-parse` run (trimmed), else empty.
pub open spec fn head_text(run: Result<CommandRun, String>) -> Seq<char> {
    match run {
        Ok(o) => if o.success {
            trim(o.stdout@)
        } else {
            Seq::empty()
        },
        Err(_) => Seq::empty(),
    }
}

/// The HEAD of the clone of `repo_name` under `base_dir`, without fetching;
/// empty when it is not a git clone or the HEAD cannot be read.
pub fn local_head_hash_no_fetch<E, G>(
    base_dir: &str,
    repo_name: &str,
    path_exists: &E,
    run: &mut G,
) -> (r: String) where E: Fn(&str) -> bool, G: FnMut(&str, &Vec<String>) -> Result<CommandRun, String>
    requires
        forall|p: &str| call_requires(*path_exists, (p,)),
        forall|p: &str, a: &Vec<String>| call_requires(*old(run), (p, a)),
    ensures
        *final(run) == *old(run),
        exists|g: &str, e: bool|
            #![trigger call_ensures(*path_exists, (g,), e)]
            g@ == git_dir_of(repo_path(base_dir@, repo_name@)) && call_ensures(*path_exists, (g,), e)
                && if !e {
                r@.len() == 0
            } else {
                exists|p: &str, a: Vec<String>, o: Result<CommandRun, String>|
                    #![trigger call_ensures(*old(run), (p, &a), o)]
                    p@ == repo_path(base_dir@, repo_name@) && arg_views(a) == seq![
                        "rev-parse"@,
                        "HEAD"@,
                    ] && call_ensures(*old(run), (p, &a), o) && r@ == head_text(o)
            },
{
    let path = build_repo_path(base_dir, repo_name);
    let mut git_dir = path.clone();
    push_str(&mut git_dir, "/.git");
    let g: &str = git_dir.as_str();
    if !path_exists(g) {
        return String::new();
    }
    let a = args2("rev-parse", "HEAD");
    let p: &str = path.as_str();
    let o = run(p, &a);
    let ghost ov = o;
    let r = match o {
        Ok(out) => if out.success {
            trim_str(out.stdout.as_str())
        } else {
            String::new()
        },
        Err(_) => String::new(),
    };
    assert(r@ == head_text(ov));
    r
}

/// `local repo check: リポジトリ=<repo> パス=<path> 結果=<result>`.
pub open spec fn local_check_message(repo: Seq<char>, path: Seq<char>, result: Seq<char>) -> Seq<char> {
    "local repo check: リポジトリ="@ + repo + " パス="@ + path + " 結果="@ + result
}

/// Hands one step of a local repository check to the logger.
pub fn log_local_repo_check<L: FnMut(&str)>(
    log_fn: &mut L,
    repo_name: &str,
    repo_path: &str,
    result: &str,
)
    requires
        forall|s: &str| call_requires(*old(log_fn), (s,)),
    ensures
        *final(log_fn) == *old(log_fn),
        forall|s: &str| call_requires(*final(log_fn), (s,)),
        exists|m: &str|
            #![trigger call_ensures(*old(log_fn), (m,), ())]
            m@ == local_check_message(repo_name@, repo_path@, result@) && call_ensures(*old(log_fn), (m,), ()),
{
    let mut s = String::new();
    push_str(&mut s, "local repo check: リポジトリ=");
    push_str(&mut s, repo_name);
    push_str(&mut s, " パス=");
    push_str(&mut s, repo_path);
    push_str(&mut s, " 結果=");
    push_str(&mut s, result);
    log_fn(s.as_str());
}

/// Logs a step when the repository is named (an unnamed check is quiet).
fn log_if_named<L: FnMut(&str)>(log_fn: &mut L, repo_name: &str, repo_path: &str, result: &str)
    requires
        forall|s: &str| call_requires(*old(log_fn), (s,)),
    ensures
        forall|s: &str| call_requires(*final(log_fn), (s,)),
        *final(log_fn) == *old(log_fn),
        repo_name@.len() > 0 ==> logged(
            *old(log_fn),
            local_check_message(repo_name@, repo_path@, result@),
        ),
{
    if !repo_name.is_empty() {
        log_local_repo_check(log_fn, repo_name, repo_path, result);
    }
}

/// The trimmed output of a successful run.
pub open spec fn run_head(run: Result<CommandRun, String>) -> Option<Seq<char>> {
    match run {
        Ok(o) => if o.success {
            Some(trim(o.stdout@))
        } else {
            None
        },
        Err(_) => None,
    }
}

/// Reads one hash with `git -C <path> rev-parse <rev>`, logging the steps
/// with `what` naming the hash and `reading` naming the step.
fn read_rev<L, G>(
    log_fn: &mut L,
    repo_name: &str,
    repo_path: &str,
    rev: &str,
    what: &str,
    reading: &str,
    run: &mut G,
) -> (r: Option<String>) where L: FnMut(&str), G: FnMut(&str, &Vec<String>) -> Result<CommandRun, String>
    requires
        forall|s: &str| call_requires(*old(log_fn), (s,)),
        forall|p: &str, a: &Vec<String>| call_requires(*old(run), (p, a)),
    ensures
        forall|s: &str| call_requires(*final(log_fn), (s,)),
        *final(run) == *old(run),
        exists|a: Vec<String>, o: Result<CommandRun, String>|
            #![trigger call_ensures(*old(run), (repo_path, &a), o)]
            arg_views(a) == seq!["rev-parse"@, rev@] && call_ensures(*old(run), (repo_path, &a), o)
                && match run_head(o) {
                Some(h) => r matches Some(x) && x@ == h,
                None => r is None,
            },
{
    let mut command = String::new();
    push_str(&mut command, "git -C ");
    push_str(&mut command, repo_path);
    push_str(&mut command, " rev-parse ");
    push_str(&mut command, rev);
    let mut msg = String::new();
    push_str(&mut msg, reading);
    push_str(&mut msg, "を開始します: コマンド=");
    push_str(&mut msg, command.as_str());
    log_if_named(log_fn, repo_name, repo_path, msg.as_str());
    let a = args2("rev-parse", rev);
    let o = run(repo_path, &a);
    let ghost ov = o;
    let out = match o {
        Ok(out) => out,
        Err(err) => {
            let mut msg = String::new();
            push_str(&mut msg, reading);
            push_str(&mut msg, "に失敗しました: コマンド=");
            push_str(&mut msg, command.as_str());
            push_str(&mut msg, ", エラー=");
            push_str(&mut msg, err.as_str());
            log_if_named(log_fn, repo_name, repo_path, msg.as_str());
            return None;
        },
    };
    if !out.success {
        let mut msg = String::new();
        push_str(&mut msg, reading);
        push_str(&mut msg, "に失敗しました: コマンド=");
        push_str(&mut msg, command.as_str());
        log_if_named(log_fn, repo_name, repo_path, msg.as_str());
        return None;
    }
    let sha = trim_str(out.stdout.as_str());
    let mut msg = String::new();
    push_str(&mut msg, what);
    push_str(&mut msg, "を取得しました: ");
    push_str(&mut msg, sha.as_str());
    log_if_named(log_fn, repo_name, repo_path, msg.as_str());
    Some(sha)
}

/// The HEAD of the clone at `repo_path` and of its upstream (`@{u}`), each
/// trimmed; `None` when either cannot be read.  Steps are logged when
/// `repo_name` is not empty.
pub fn local_and_upstream_heads_with_logger<L, G>(
    repo_name: &str,
    repo_path: &str,
    log_fn: &mut L,
    run: &mut G,
) -> (r: Option<(String, String)>) where L: FnMut(&str), G: FnMut(&str, &Vec<String>) -> Result<CommandRun, String>
    requires
        forall|s: &str| call_requires(*old(log_fn), (s,)),
        forall|p: &str, a: &Vec<String>| call_requires(*old(run), (p, a)),
    ensures
        forall|s: &str| call_requires(*final(log_fn), (s,)),
        *final(run) == *old(run),
        exists|a: Vec<String>, o: Result<CommandRun, String>|
            #![trigger call_ensures(*old(run), (repo_path, &a), o)]
            arg_views(a) == seq!["rev-parse"@, "HEAD"@] && call_ensures(*old(run), (repo_path, &a), o)
                && match run_head(o) {
                None => r is None,
                Some(local) => exists|a2: Vec<String>, o2: Result<CommandRun, String>|
                    #![trigger call_ensures(*old(run), (repo_path, &a2), o2)]
                    arg_views(a2) == seq!["rev-parse"@, "@{u}"@] && call_ensures(
                        *old(run),
                        (repo_path, &a2),
                        o2,
                    ) && match run_head(o2) {
                        None => r is None,
                        Some(up) => r matches Some((x, y)) && x@ == local && y@ == up,
                    },
            },
{
    let local = read_rev(
        log_fn,
        repo_name,
        repo_path,
        "HEAD",
        "ローカルのコミットハッシュ",
        "ローカルのコミットハッシュ取得",
        run,
    );
    let local_sha = match local {
        Some(s) => s,
        None => {
            return None;
        },
    };
    let remote = read_rev(
        log_fn,
        repo_name,
        repo_path,
        "@{u}",
        "リモートから取得したコミットハッシュ",
        "リモートから取得したコミットハッシュの取得",
        run,
    );
    match remote {
        Some(remote_sha) => Some((local_sha, remote_sha)),
        None => None,
    }
}

/// Whether the HEAD of the clone of `repo_name` under `base_dir` is the
/// upstream's; `false` when either cannot be read.  Every step is logged.
pub fn local_head_matches_upstream_with_logger<L, G>(
    base_dir: &str,
    repo_name: &str,
    log_fn: L,
    run: &mut G,
) -> (r: bool) where L: FnMut(&str), G: FnMut(&str, &Vec<String>) -> Result<CommandRun, String>
    requires
        forall|s: &str| call_requires(log_fn, (s,)),
        forall|p: &str, a: &Vec<String>| call_requires(*old(run), (p, a)),
    ensures
        *final(run) == *old(run),
        exists|p: &str, a: Vec<String>, o: Result<CommandRun, String>|
            #![trigger call_ensures(*old(run), (p, &a), o)]
            p@ == repo_path(base_dir@, repo_name@) && arg_views(a) == seq!["rev-parse"@, "HEAD"@]
                && call_ensures(*old(run), (p, &a), o) && match run_head(o) {
                None => !r,
                Some(local) => exists|a2: Vec<String>, o2: Result<CommandRun, String>|
                    #![trigger call_ensures(*old(run), (p, &a2), o2)]
                    arg_views(a2) == seq!["rev-parse"@, "@{u}"@] && call_ensures(
                        *old(run),
                        (p, &a2),
                        o2,
                    ) && match run_head(o2) {
                        None => !r,
                        Some(up) => r == (local == up),
                    },
            },
{
    let mut log_fn = log_fn;
    let path = build_repo_path(base_dir, repo_name);
    let p: &str = path.as_str();
    log_local_repo_check(
        &mut log_fn,
        repo_name,
        p,
        "開始: ローカルとリモートのコミットハッシュ比較を開始します",
    );
    let result = match local_and_upstream_heads_with_logger(repo_name, p, &mut log_fn, run) {
        Some((local_sha, remote_sha)) => {
            let matches = crate::text::str_eq(local_sha.as_str(), remote_sha.as_str());
            let mut msg = String::new();
            push_str(&mut msg, "ローカルとリモートのコミットハッシュ比較結果=");
            if matches {
                push_str(&mut msg, "一致");
            } else {
                push_str(&mut msg, "不一致");
            }
            log_local_repo_check(&mut log_fn, repo_name, p, msg.as_str());
            matches
        },
        None => {
            log_local_repo_check(
                &mut log_fn,
                repo_name,
                p,
                "ローカルまたはリモートのコミットハッシュを取得できなかったため、比較結果を判定できません",
            );
            false
        },
    };
    let mut msg = String::new();
    push_str(&mut msg, "終了: ローカル repo check を完了しました (比較結果=");
    if result {
        push_str(&mut msg, "一致");
    } else {
        push_str(&mut msg, "不一致または判定不能");
    }
    push_str(&mut msg, ")");
    log_local_repo_check(&mut log_fn, repo_name, p, msg.as_str());
    result
}

} // verus!
