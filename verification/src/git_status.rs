//! The state of a local clone, read from `git status --porcelain` and the
//! ahead/behind counts against its upstream.
use vstd::prelude::*;

use crate::cargo_git::CommandRun;
use crate::text::{
    chars_of, is_ws, lines, lines_of, push_str, string_of, trim, trim_chars, trim_end, trim_start,
    views, words, words_of,
};
use crate::types::{GitTrackingStatus, LocalStatus};

verus! {

/// An unmerged entry of `git status --porcelain` (both sides changed it).
pub open spec fn unmerged(x: char, y: char) -> bool {
    (x == 'A' && y == 'A') || (x == 'D' && y == 'D') || (x == 'U' && y == 'D') || (x == 'D' && y
        == 'U') || (x == 'A' && y == 'U') || (x == 'U' && y == 'A') || (x == 'U' && y == 'U')
}

/// Whether the status pair `x y` is an unmerged one.
pub fn is_unmerged_status(x: char, y: char) -> (r: bool)
    ensures
        r == unmerged(x, y),
{
    (x == 'A' && y == 'A') || (x == 'D' && y == 'D') || (x == 'U' && y == 'D') || (x == 'D' && y
        == 'U') || (x == 'A' && y == 'U') || (x == 'U' && y == 'A') || (x == 'U' && y == 'U')
}

/// What the lines of `git status --porcelain` say: the listed entries, and
/// whether some entry is a conflict, is staged, or is changed in the tree.
pub struct LocalChanges {
    pub files: Vec<String>,
    pub has_conflict: bool,
    pub has_staged: bool,
    pub has_modified: bool,
}

/// What one non-blank status line adds: `(conflict, staged, modified)`,
/// read from its first two bytes.
pub open spec fn line_flags(line: Seq<char>) -> (bool, bool, bool) {
    let b = vstd::utf8::encode_utf8(line);
    if b.len() < 2 {
        (false, false, true)
    } else {
        let x = b[0] as char;
        let y = b[1] as char;
        if unmerged(x, y) {
            (true, false, false)
        } else if x == '?' && y == '?' {
            (false, false, true)
        } else {
            (false, x != ' ', y != ' ')
        }
    }
}

/// The status lines read so far: the non-blank lines and the flags they
/// raised.
pub open spec fn porcelain_summary(ls: Seq<Seq<char>>) -> (Seq<Seq<char>>, bool, bool, bool)
    decreases ls.len(),
{
    if ls.len() == 0 {
        (seq![], false, false, false)
    } else {
        let prev = porcelain_summary(ls.drop_last());
        let line = ls.last();
        if trim(line).len() == 0 {
            prev
        } else {
            let f = line_flags(line);
            (prev.0.push(line), prev.1 || f.0, prev.2 || f.1, prev.3 || f.2)
        }
    }
}

/// The flags one status line raises.
fn status_line_flags(line: &str) -> (r: (bool, bool, bool))
    ensures
        r == line_flags(line@),
{
    let b = line.as_bytes();
    proof {
        assert(b@ == vstd::utf8::encode_utf8(line@));
    }
    if b.len() < 2 {
        return (false, false, true);
    }
    let x = b[0] as char;
    let y = b[1] as char;
    if is_unmerged_status(x, y) {
        (true, false, false)
    } else if x == '?' && y == '?' {
        (false, false, true)
    } else {
        (false, x != ' ', y != ' ')
    }
}

/// Reads the output of `git status --porcelain`.
pub fn parse_porcelain(output: &str) -> (r: LocalChanges)
    ensures
        ({
            let s = porcelain_summary(lines(output@));
            &&& r.files@.map_values(|f: String| f@) == s.0
            &&& r.has_conflict == s.1
            &&& r.has_staged == s.2
            &&& r.has_modified == s.3
        }),
{
    let chars = chars_of(output);
    let ls = lines_of(chars.as_slice());
    let ghost all = views(ls@);
    let mut files: Vec<String> = Vec::new();
    let mut has_conflict = false;
    let mut has_staged = false;
    let mut has_modified = false;
    let mut i: usize = 0;
    while i < ls.len()
        invariant
            i <= ls@.len(),
            all == views(ls@),
            all == lines(output@),
            ({
                let s = porcelain_summary(all.take(i as int));
                &&& files@.map_values(|f: String| f@) == s.0
                &&& has_conflict == s.1
                &&& has_staged == s.2
                &&& has_modified == s.3
            }),
        decreases ls@.len() - i,
    {
        proof {
            assert(all.take(i + 1).drop_last() =~= all.take(i as int));
            assert(all.take(i + 1).last() == ls@[i as int]@);
        }
        let t = trim_chars(ls[i].as_slice());
        if t.len() > 0 {
            let line = string_of(ls[i].as_slice());
            let (c, s, m) = status_line_flags(line.as_str());
            let ghost before = files@;
            files.push(line);
            proof {
                assert(files@.map_values(|f: String| f@) =~= before.map_values(|f: String| f@).push(
                    ls@[i as int]@,
                ));
            }
            has_conflict = has_conflict || c;
            has_staged = has_staged || s;
            has_modified = has_modified || m;
        }
        i += 1;
    }
    assert(all.take(ls@.len() as int) =~= all);
    LocalChanges { files, has_conflict, has_staged, has_modified }
}

/// The changes read from a `git status --porcelain` run: none when it could
/// not be run or failed.
pub fn local_changes_from(run: Result<CommandRun, String>) -> (r: LocalChanges)
    ensures
        match run {
            Ok(o) => if o.success {
                let s = porcelain_summary(lines(o.stdout@));
                &&& r.files@.map_values(|f: String| f@) == s.0
                &&& r.has_conflict == s.1
                &&& r.has_staged == s.2
                &&& r.has_modified == s.3
            } else {
                r.files@.len() == 0 && !r.has_conflict && !r.has_staged && !r.has_modified
            },
            Err(_) => r.files@.len() == 0 && !r.has_conflict && !r.has_staged && !r.has_modified,
        },
{
    match run {
        Ok(o) => if o.success {
            parse_porcelain(o.stdout.as_str())
        } else {
            LocalChanges {
                files: Vec::new(),
                has_conflict: false,
                has_staged: false,
                has_modified: false,
            }
        },
        Err(_) => LocalChanges {
            files: Vec::new(),
            has_conflict: false,
            has_staged: false,
            has_modified: false,
        },
    }
}

/// The value of a decimal digit.
pub open spec fn digit_value(c: char) -> int {
    (c as int) - ('0' as int)
}

/// The number written by the decimal digits of `s`.
pub open spec fn digits_value(s: Seq<char>) -> int
    decreases s.len(),
{
    if s.len() == 0 {
        0
    } else {
        digits_value(s.drop_last()) * 10 + digit_value(s.last())
    }
}

/// Every character of `s` is a decimal digit.
pub open spec fn all_digits(s: Seq<char>) -> bool {
    forall|i: int| 0 <= i < s.len() ==> '0' <= #[trigger] s[i] <= '9'
}

/// `str::parse::<u64>`: an optional `+`, then at least one digit, and a
/// value that fits.
pub open spec fn parsed_u64(s: Seq<char>) -> Option<u64> {
    let d = if s.len() > 0 && s[0] == '+' {
        s.drop_first()
    } else {
        s
    };
    if d.len() > 0 && all_digits(d) && digits_value(d) <= u64::MAX {
        Some(digits_value(d) as u64)
    } else {
        None
    }
}

proof fn lemma_digits_value_nonneg(s: Seq<char>)
    requires
        all_digits(s),
    ensures
        digits_value(s) >= 0,
    decreases s.len(),
{
    if s.len() > 0 {
        lemma_digits_value_nonneg(s.drop_last());
    }
}

/// Reads an unsigned decimal number as `str::parse::<u64>` does.
pub fn parse_u64(s: &[char]) -> (r: Option<u64>)
    ensures
        r == parsed_u64(s@),
{
    let start: usize = if s.len() > 0 && s[0] == '+' {
        1
    } else {
        0
    };
    let ghost d = if s@.len() > 0 && s@[0] == '+' {
        s@.drop_first()
    } else {
        s@
    };
    assert(d =~= s@.skip(start as int));
    if start >= s.len() {
        return None;
    }
    let mut v: u64 = 0;
    let mut i: usize = start;
    assert(d.take(0) =~= seq![]);
    while i < s.len()
        invariant
            start <= i <= s@.len(),
            start < s@.len(),
            d == s@.skip(start as int),
            d == (if s@.len() > 0 && s@[0] == '+' {
                s@.drop_first()
            } else {
                s@
            }),
            all_digits(d.take(i - start)),
            v as int == digits_value(d.take(i - start)),
        decreases s@.len() - i,
    {
        let c = s[i];
        proof {
            assert(d.take(i - start + 1).drop_last() =~= d.take(i - start));
            assert(d.take(i - start + 1).last() == c);
        }
        if c < '0' || c > '9' {
            proof {
                assert(d[i - start] == c);
                assert(!all_digits(d));
            }
            return None;
        }
        let dv: u64 = (c as u32 - '0' as u32) as u64;
        assert(dv as int == digit_value(c));
        if v > (u64::MAX - dv) / 10 {
            proof {
                let k = i - start + 1;
                assert(d.take(k) =~= d.take(i - start).push(c));
                assert(all_digits(d.take(k)));
                assert(v * 10 + dv > u64::MAX) by (nonlinear_arith)
                    requires
                        v > (u64::MAX - dv) / 10,
                        dv <= 9,
                ;
                assert(digits_value(d.take(k)) == v * 10 + dv);
                lemma_prefix_value_bound(d, k);
            }
            return None;
        }
        v = v * 10 + dv;
        i += 1;
        proof {
            assert(all_digits(d.take(i - start)));
        }
    }
    assert(d.take(i - start) =~= d);
    Some(v)
}

/// A number's prefix is worth no more than the number.
proof fn lemma_prefix_value_bound(d: Seq<char>, k: int)
    requires
        0 <= k <= d.len(),
        all_digits(d.take(k)),
    ensures
        all_digits(d) ==> digits_value(d.take(k)) <= digits_value(d),
    decreases d.len() - k,
{
    if k < d.len() && all_digits(d) {
        assert(all_digits(d.take(k + 1)));
        lemma_prefix_value_bound(d, k + 1);
        assert(d.take(k + 1).drop_last() =~= d.take(k));
        lemma_digits_value_nonneg(d.take(k));
    } else if k == d.len() {
        assert(d.take(k) =~= d);
    }
}

/// The ahead/behind counts printed by `git rev-list --left-right --count`:
/// exactly two numbers.
pub open spec fn parsed_counts(text: Seq<char>) -> Option<(u64, u64)> {
    let ws = words(text);
    if ws.len() == 2 {
        match (parsed_u64(ws[0]), parsed_u64(ws[1])) {
            (Some(a), Some(b)) => Some((a, b)),
            _ => None,
        }
    } else {
        None
    }
}

/// Reads the ahead/behind counts.
pub fn parse_tracking_counts(text: &str) -> (r: Option<(u64, u64)>)
    ensures
        r == parsed_counts(text@),
{
    let chars = chars_of(text);
    let ws = words_of(chars.as_slice());
    if ws.len() != 2 {
        return None;
    }
    assert(ws@[0]@ == views(ws@)[0] && ws@[1]@ == views(ws@)[1]);
    let a = parse_u64(ws[0].as_slice());
    let b = parse_u64(ws[1].as_slice());
    match (a, b) {
        (Some(a), Some(b)) => Some((a, b)),
        _ => None,
    }
}

/// The relation to the upstream given by the counts.
pub open spec fn tracking_of_counts(ahead: u64, behind: u64) -> GitTrackingStatus {
    if ahead == 0 && behind == 0 {
        GitTrackingStatus::Synced
    } else if behind == 0 {
        GitTrackingStatus::Ahead { commits: ahead }
    } else if ahead == 0 {
        GitTrackingStatus::Behind { commits: behind }
    } else {
        GitTrackingStatus::Diverged { ahead, behind }
    }
}

/// A command that ran and succeeded.
pub open spec fn succeeded(run: Result<CommandRun, String>) -> bool {
    run matches Ok(o) && o.success
}

/// The relation to the upstream: unknown without a HEAD, none without an
/// upstream, else read from the counts.
pub open spec fn tracking_status_of(
    head: Result<CommandRun, String>,
    upstream: Result<CommandRun, String>,
    counts: Result<CommandRun, String>,
) -> GitTrackingStatus {
    if !succeeded(head) {
        GitTrackingStatus::Unknown
    } else if !succeeded(upstream) {
        GitTrackingStatus::NoUpstream
    } else {
        match counts {
            Ok(o) => if o.success {
                match parsed_counts(o.stdout@) {
                    Some((a, b)) => tracking_of_counts(a, b),
                    None => GitTrackingStatus::Unknown,
                }
            } else {
                GitTrackingStatus::Unknown
            },
            Err(_) => GitTrackingStatus::Unknown,
        }
    }
}

/// The relation to the upstream from the counts.
pub fn tracking_from_counts(ahead: u64, behind: u64) -> (r: GitTrackingStatus)
    ensures
        r == tracking_of_counts(ahead, behind),
{
    if ahead == 0 && behind == 0 {
        GitTrackingStatus::Synced
    } else if behind == 0 {
        GitTrackingStatus::Ahead { commits: ahead }
    } else if ahead == 0 {
        GitTrackingStatus::Behind { commits: behind }
    } else {
        GitTrackingStatus::Diverged { ahead, behind }
    }
}

/// The arguments of one `git -C <path> ...` call.
pub open spec fn git_args(a: Seq<Seq<char>>) -> Seq<Seq<char>> {
    a
}

/// The views of a list of arguments.
pub open spec fn arg_views(args: Vec<String>) -> Seq<Seq<char>> {
    args@.map_values(|s: String| s@)
}

/// A list of arguments.
fn args_of(a: &str, b: &str, c: &str) -> (r: Vec<String>)
    ensures
        arg_views(r) == seq![a@, b@, c@],
{
    let mut r: Vec<String> = Vec::new();
    r.push(a.to_owned());
    r.push(b.to_owned());
    r.push(c.to_owned());
    assert(arg_views(r) =~= seq![a@, b@, c@]);
    r
}

/// A list of four arguments.
fn args_of4(a: &str, b: &str, c: &str, d: &str) -> (r: Vec<String>)
    ensures
        arg_views(r) == seq![a@, b@, c@, d@],
{
    let mut r: Vec<String> = Vec::new();
    r.push(a.to_owned());
    r.push(b.to_owned());
    r.push(c.to_owned());
    r.push(d.to_owned());
    assert(arg_views(r) =~= seq![a@, b@, c@, d@]);
    r
}

/// The relation of the clone at `repo_path` to its upstream, from up to
/// three `git` runs (`run_git(path, args)` runs `git -C path args`).
pub fn get_tracking_status<G>(repo_path: &str, run_git: &mut G) -> (r: GitTrackingStatus) where
    G: FnMut(&str, &Vec<String>) -> Result<CommandRun, String>,

    requires
        forall|p: &str, a: &Vec<String>| call_requires(*old(run_git), (p, a)),
    ensures
        *final(run_git) == *old(run_git),
        exists|a1: Vec<String>, h: Result<CommandRun, String>|
            #![trigger call_ensures(*old(run_git), (repo_path, &a1), h)]
            arg_views(a1) == seq!["rev-parse"@, "--verify"@, "HEAD"@] && call_ensures(
                *old(run_git),
                (repo_path, &a1),
                h,
            ) && if !succeeded(h) {
                r == GitTrackingStatus::Unknown
            } else {
                exists|a2: Vec<String>, u: Result<CommandRun, String>|
                    #![trigger call_ensures(*old(run_git), (repo_path, &a2), u)]
                    arg_views(a2) == seq!["rev-parse"@, "--verify"@, "@{u}"@] && call_ensures(
                        *old(run_git),
                        (repo_path, &a2),
                        u,
                    ) && if !succeeded(u) {
                        r == GitTrackingStatus::NoUpstream
                    } else {
                        exists|a3: Vec<String>, c: Result<CommandRun, String>|
                            #![trigger call_ensures(*old(run_git), (repo_path, &a3), c)]
                            arg_views(a3) == seq![
                                "rev-list"@,
                                "--left-right"@,
                                "--count"@,
                                "HEAD...@{u}"@,
                            ] && call_ensures(*old(run_git), (repo_path, &a3), c) && r
                                == tracking_status_of(h, u, c)
                    }
            },
{
    let a1 = args_of("rev-parse", "--verify", "HEAD");
    let h = run_git(repo_path, &a1);
    let ghost hv = h;
    let head_ok = match &h {
        Ok(o) => o.success,
        Err(_) => false,
    };
    if !head_ok {
        return GitTrackingStatus::Unknown;
    }
    let a2 = args_of("rev-parse", "--verify", "@{u}");
    let u = run_git(repo_path, &a2);
    let ghost uv = u;
    let up_ok = match &u {
        Ok(o) => o.success,
        Err(_) => false,
    };
    if !up_ok {
        return GitTrackingStatus::NoUpstream;
    }
    let a3 = args_of4("rev-list", "--left-right", "--count", "HEAD...@{u}");
    let c = run_git(repo_path, &a3);
    let ghost cv = c;
    let r = match c {
        Ok(o) => if o.success {
            match parse_tracking_counts(o.stdout.as_str()) {
                Some((a, b)) => tracking_from_counts(a, b),
                None => GitTrackingStatus::Unknown,
            }
        } else {
            GitTrackingStatus::Unknown
        },
        Err(_) => GitTrackingStatus::Unknown,
    };
    assert(r == tracking_status_of(hv, uv, cv));
    r
}

/// The status shown for a clone: a conflict first, then staged changes,
/// then tree changes; a clean clone by its relation to the upstream.
pub open spec fn local_status_of(
    conflict: bool,
    staged: bool,
    modified: bool,
    tracking: GitTrackingStatus,
) -> LocalStatus {
    if conflict {
        LocalStatus::Conflict
    } else if staged {
        LocalStatus::Staging
    } else if modified {
        LocalStatus::Modified
    } else {
        match tracking {
            GitTrackingStatus::Synced => LocalStatus::Clean,
            GitTrackingStatus::Behind { .. } => LocalStatus::Pullable,
            _ => LocalStatus::Other,
        }
    }
}

/// The status shown for a clone.
pub fn classify_local_status(changes: &LocalChanges, tracking: &GitTrackingStatus) -> (r:
    LocalStatus)
    ensures
        r == local_status_of(
            changes.has_conflict,
            changes.has_staged,
            changes.has_modified,
            *tracking,
        ),
{
    if changes.has_conflict {
        LocalStatus::Conflict
    } else if changes.has_staged {
        LocalStatus::Staging
    } else if changes.has_modified {
        LocalStatus::Modified
    } else {
        match tracking {
            GitTrackingStatus::Synced => LocalStatus::Clean,
            GitTrackingStatus::Behind { .. } => LocalStatus::Pullable,
            _ => LocalStatus::Other,
        }
    }
}

/// `base_dir` without trailing `/` or `\`.
pub open spec fn trim_separators(s: Seq<char>) -> Seq<char>
    decreases s.len(),
{
    if s.len() > 0 && (s.last() == '/' || s.last() == '\\') {
        trim_separators(s.drop_last())
    } else {
        s
    }
}

/// `<base_dir>/<repo_name>`, the base directory without trailing separators.
pub open spec fn repo_path(base_dir: Seq<char>, repo_name: Seq<char>) -> Seq<char> {
    trim_separators(base_dir) + "/"@ + repo_name
}

/// The path of the clone of `repo_name` under `base_dir`.
pub fn build_repo_path(base_dir: &str, repo_name: &str) -> (r: String)
    ensures
        r@ == repo_path(base_dir@, repo_name@),
{
    let b = chars_of(base_dir);
    let mut j: usize = b.len();
    assert(b@.take(j as int) =~= b@);
    while j > 0 && (b[j - 1] == '/' || b[j - 1] == '\\')
        invariant
            j <= b@.len(),
            trim_separators(b@) == trim_separators(b@.take(j as int)),
        decreases j,
    {
        assert(b@.take(j as int).drop_last() =~= b@.take(j - 1));
        j -= 1;
    }
    let head = crate::text::slice_sub(b.as_slice(), 0, j);
    let mut s = string_of(head.as_slice());
    push_str(&mut s, "/");
    push_str(&mut s, repo_name);
    proof {
        assert(b@.subrange(0, j as int) =~= b@.take(j as int));
    }
    s
}

/// The state of a local clone.
pub struct LocalRepoState {
    pub local_status: LocalStatus,
    pub tracking_status: GitTrackingStatus,
    pub has_local_git: bool,
    pub files: Vec<String>,
}

/// A clone that is not there, or not a git clone.
fn absent_state(status: LocalStatus) -> (r: LocalRepoState)
    ensures
        r.local_status == status,
        r.tracking_status == GitTrackingStatus::Unknown,
        !r.has_local_git,
        r.files@.len() == 0,
{
    LocalRepoState {
        local_status: status,
        tracking_status: GitTrackingStatus::Unknown,
        has_local_git: false,
        files: Vec::new(),
    }
}

/// `<path>/.git`.
pub open spec fn git_dir_of(path: Seq<char>) -> Seq<char> {
    path + "/.git"@
}

/// The state read for a git clone from its status run and its relation to
/// the upstream.
pub open spec fn state_from(
    status: Result<CommandRun, String>,
    tracking: GitTrackingStatus,
    r: LocalRepoState,
) -> bool {
    let (files, conflict, staged, modified) = match status {
        Ok(o) => if o.success {
            porcelain_summary(lines(o.stdout@))
        } else {
            (seq![], false, false, false)
        },
        Err(_) => (seq![], false, false, false),
    };
    &&& r.local_status == local_status_of(conflict, staged, modified, tracking)
    &&& r.tracking_status == tracking
    &&& r.has_local_git
    &&& r.files@.map_values(|f: String| f@) == files
}

/// The state of the clone of `repo_name` under `base_dir`, without fetching:
/// `NotFound` when the directory is missing, `NoGit` when it is not a git
/// clone, else read from `git status --porcelain` and the upstream counts.
/// `path_exists` tells whether a path exists; `run_git(path, args)` runs
/// `git -C path args`.
pub fn check_local_repo_state_no_fetch<E, G>(
    base_dir: &str,
    repo_name: &str,
    path_exists: &E,
    run_git: &mut G,
) -> (r: LocalRepoState) where
    E: Fn(&str) -> bool,
    G: FnMut(&str, &Vec<String>) -> Result<CommandRun, String>,

    requires
        forall|p: &str| call_requires(*path_exists, (p,)),
        forall|p: &str, a: &Vec<String>| call_requires(*old(run_git), (p, a)),
    ensures
        *final(run_git) == *old(run_git),
        exists|p: &str, e1: bool|
            #![trigger call_ensures(*path_exists, (p,), e1)]
            p@ == repo_path(base_dir@, repo_name@) && call_ensures(*path_exists, (p,), e1) && if !e1 {
                r.local_status == LocalStatus::NotFound && r.tracking_status
                    == GitTrackingStatus::Unknown && !r.has_local_git && r.files@.len() == 0
            } else {
                exists|g: &str, e2: bool|
                    #![trigger call_ensures(*path_exists, (g,), e2)]
                    g@ == git_dir_of(p@) && call_ensures(*path_exists, (g,), e2) && if !e2 {
                        r.local_status == LocalStatus::NoGit && r.tracking_status
                            == GitTrackingStatus::Unknown && !r.has_local_git && r.files@.len()
                            == 0
                    } else {
                        exists|a: Vec<String>, st: Result<CommandRun, String>|
                            #![trigger call_ensures(*old(run_git), (p, &a), st)]
                            arg_views(a) == seq!["status"@, "--porcelain"@] && call_ensures(
                                *old(run_git),
                                (p, &a),
                                st,
                            ) && state_from(st, r.tracking_status, r)
                    }
            },
{
    let path = build_repo_path(base_dir, repo_name);
    let p: &str = path.as_str();
    let e1 = path_exists(p);
    if !e1 {
        return absent_state(LocalStatus::NotFound);
    }
    let mut git_dir = path.clone();
    push_str(&mut git_dir, "/.git");
    let g: &str = git_dir.as_str();
    let e2 = path_exists(g);
    if !e2 {
        return absent_state(LocalStatus::NoGit);
    }
    let mut a: Vec<String> = Vec::new();
    a.push("status".to_owned());
    a.push("--porcelain".to_owned());
    assert(arg_views(a) =~= seq!["status"@, "--porcelain"@]);
    let st = run_git(p, &a);
    let ghost st_v = st;
    let changes = local_changes_from(st);
    let tracking = get_tracking_status(p, run_git);
    let local_status = classify_local_status(&changes, &tracking);
    let r = LocalRepoState {
        local_status,
        tracking_status: tracking,
        has_local_git: true,
        files: changes.files,
    };
    proof {
        let t = match st_v {
            Ok(o) => if o.success {
                porcelain_summary(lines(o.stdout@))
            } else {
                (seq![], false, false, false)
            },
            Err(_) => (seq![], false, false, false),
        };
        assert(changes.files@.map_values(|f: String| f@) == t.0);
        assert(changes.has_conflict == t.1 && changes.has_staged == t.2 && changes.has_modified
            == t.3);
        assert(r.files@ == changes.files@);
    }
    assert(state_from(st_v, r.tracking_status, r));
    r
}

/// The state of a clone as `(status, has git, files)`.
pub fn check_local_status_no_fetch<E, G>(
    base_dir: &str,
    repo_name: &str,
    path_exists: &E,
    run_git: &mut G,
) -> (r: (LocalStatus, bool, Vec<String>)) where
    E: Fn(&str) -> bool,
    G: FnMut(&str, &Vec<String>) -> Result<CommandRun, String>,

    requires
        forall|p: &str| call_requires(*path_exists, (p,)),
        forall|p: &str, a: &Vec<String>| call_requires(*old(run_git), (p, a)),
    ensures
        *final(run_git) == *old(run_git),
        exists|st: LocalRepoState|
            r.0 == st.local_status && r.1 == st.has_local_git && r.2@ == st.files@ && exists|
                p: &str,
                e1: bool,
            |
                #![trigger call_ensures(*path_exists, (p,), e1)]
                p@ == repo_path(base_dir@, repo_name@) && call_ensures(*path_exists, (p,), e1)
                    && if !e1 {
                    st.local_status == LocalStatus::NotFound && !st.has_local_git
                        && st.files@.len() == 0
                } else {
                    exists|g: &str, e2: bool|
                        #![trigger call_ensures(*path_exists, (g,), e2)]
                        g@ == git_dir_of(p@) && call_ensures(*path_exists, (g,), e2) && if !e2 {
                            st.local_status == LocalStatus::NoGit && !st.has_local_git
                                && st.files@.len() == 0
                        } else {
                            exists|a: Vec<String>, s: Result<CommandRun, String>|
                                #![trigger call_ensures(*old(run_git), (p, &a), s)]
                                arg_views(a) == seq!["status"@, "--porcelain"@] && call_ensures(
                                    *old(run_git),
                                    (p, &a),
                                    s,
                                ) && state_from(s, st.tracking_status, st)
                        }
                },
{
    let st = check_local_repo_state_no_fetch(base_dir, repo_name, path_exists, run_git);
    let ghost stv = st;
    (st.local_status, st.has_local_git, st.files)
}

/// A text that starts with a non-blank character is not blank.
proof fn lemma_trim_keeps_first(s: Seq<char>)
    requires
        s.len() > 0,
        !is_ws(s[0]),
    ensures
        trim(s).len() > 0,
{
    assert(trim_start(s) == s);
    lemma_trim_end_keeps_first(s);
}

proof fn lemma_trim_end_keeps_first(s: Seq<char>)
    requires
        s.len() > 0,
        !is_ws(s[0]),
    ensures
        trim_end(s).len() > 0,
    decreases s.len(),
{
    if is_ws(s.last()) {
        assert(s.len() > 1);
        assert(s.drop_last()[0] == s[0]);
        lemma_trim_end_keeps_first(s.drop_last());
    }
}

/// The first two characters of a status line (its status columns) are
/// ASCII.
pub open spec fn status_columns_ascii(line: Seq<char>) -> bool {
    forall|i: int| 0 <= i < 2 && i < line.len() ==> '\0' <= #[trigger] line[i] <= '\u{7f}'
}

/// The UTF-8 bytes of a line start with its first characters when they are
/// ASCII.
proof fn lemma_ascii_status_bytes(line: Seq<char>)
    requires
        line.len() > 0,
        status_columns_ascii(line),
    ensures
        vstd::utf8::encode_utf8(line).len() >= line.len() && (line.len() == 1
            ==> vstd::utf8::encode_utf8(line).len() == 1),
        vstd::utf8::encode_utf8(line)[0] as char == line[0],
        line.len() >= 2 ==> vstd::utf8::encode_utf8(line)[1] as char == line[1],
{
    let c0 = line[0] as u32;
    assert((line[0] as nat) < 128);
    assert(c0 <= 0x7f);
    assert((c0 & 0x7F) as u8 as u32 == c0) by (bit_vector)
        requires
            c0 <= 0x7f,
    ;
    let rest = line.drop_first();
    assert(vstd::utf8::encode_utf8(line) == vstd::utf8::encode_scalar(c0) + vstd::utf8::encode_utf8(
        rest,
    ));
    assert(vstd::utf8::encode_scalar(c0) == seq![(c0 & 0x7F) as u8]);
    if line.len() >= 2 {
        let c1 = line[1] as u32;
        assert(rest[0] == line[1]);
        assert((line[1] as nat) < 128);
        assert(c1 <= 0x7f);
        assert((c1 & 0x7F) as u8 as u32 == c1) by (bit_vector)
            requires
                c1 <= 0x7f,
        ;
        assert(vstd::utf8::encode_utf8(rest) == vstd::utf8::encode_scalar(c1)
            + vstd::utf8::encode_utf8(rest.drop_first()));
        assert(vstd::utf8::encode_scalar(c1) == seq![(c1 & 0x7F) as u8]);
        lemma_encode_len(rest.drop_first());
    } else {
        assert(rest.len() == 0);
        assert(vstd::utf8::encode_utf8(rest) =~= Seq::<u8>::empty());
    }
}

/// A text's UTF-8 bytes are at least as many as its characters.
proof fn lemma_encode_len(s: Seq<char>)
    ensures
        vstd::utf8::encode_utf8(s).len() >= s.len(),
    decreases s.len(),
{
    if s.len() > 0 {
        vstd::utf8::char_is_scalar(s[0]);
        lemma_encode_len(s.drop_first());
    }
}

/// Once a line has raised a flag, the summary of any lines that hold it
/// has that flag.
proof fn lemma_summary_has_line(ls: Seq<Seq<char>>, k: int)
    requires
        0 <= k < ls.len(),
        trim(ls[k]).len() > 0,
    ensures
        line_flags(ls[k]).0 ==> porcelain_summary(ls).1,
        line_flags(ls[k]).1 ==> porcelain_summary(ls).2,
        line_flags(ls[k]).2 ==> porcelain_summary(ls).3,
    decreases ls.len(),
{
    if k < ls.len() - 1 {
        assert(ls.drop_last()[k] == ls[k]);
        lemma_summary_has_line(ls.drop_last(), k);
    }
}

/// An untracked entry (`??`) of `git status --porcelain` counts as a change
/// in the working tree.
pub proof fn law_untracked_counts_as_modified(ls: Seq<Seq<char>>, k: int)
    requires
        0 <= k < ls.len(),
        ls[k].len() >= 2,
        ls[k][0] == '?',
        ls[k][1] == '?',
    ensures
        porcelain_summary(ls).3,
{
    lemma_ascii_status_bytes(ls[k]);
    lemma_trim_keeps_first(ls[k]);
    lemma_summary_has_line(ls, k);
}

/// Every non-blank status line raises some flag (conflict, staged or
/// modified) unless both of its status columns are blank: a summary with no
/// flag comes only from output without such lines.
pub proof fn law_status_line_raises_a_flag(ls: Seq<Seq<char>>, k: int)
    requires
        0 <= k < ls.len(),
        trim(ls[k]).len() > 0,
        status_columns_ascii(ls[k]),
        !(ls[k].len() >= 2 && ls[k][0] == ' ' && ls[k][1] == ' '),
    ensures
        porcelain_summary(ls).1 || porcelain_summary(ls).2 || porcelain_summary(ls).3,
{
    lemma_ascii_status_bytes(ls[k]);
    lemma_summary_has_line(ls, k);
}

/// What git's status columns `XY` report: both sides added (`AA`), deleted
/// (`DD`) or modified (`UU`) is a conflict; changed in the index only (`M `,
/// `A `, `R `, `C `, `D `) is staged; changed in the work tree only (` M`,
/// ` D`) is modified.
pub proof fn law_status_columns(ls: Seq<Seq<char>>, k: int)
    requires
        0 <= k < ls.len(),
        ls[k].len() >= 2,
        status_columns_ascii(ls[k]),
    ensures
        (ls[k][0] == 'A' || ls[k][0] == 'D' || ls[k][0] == 'U') && ls[k][1] == ls[k][0]
            ==> porcelain_summary(ls).1,
        (ls[k][0] == 'M' || ls[k][0] == 'A' || ls[k][0] == 'R' || ls[k][0] == 'C' || ls[k][0]
            == 'D') && ls[k][1] == ' ' ==> porcelain_summary(ls).2,
        ls[k][0] == ' ' && (ls[k][1] == 'M' || ls[k][1] == 'D') ==> porcelain_summary(ls).3,
{
    lemma_ascii_status_bytes(ls[k]);
    let x = ls[k][0];
    if x == 'M' || x == 'A' || x == 'R' || x == 'C' || x == 'D' || x == 'U' {
        lemma_trim_keeps_first(ls[k]);
        lemma_summary_has_line(ls, k);
    } else if x == ' ' && (ls[k][1] == 'M' || ls[k][1] == 'D') {
        assert(trim_start(ls[k]) == trim_start(ls[k].drop_first()));
        assert(ls[k].drop_first()[0] == ls[k][1]);
        lemma_trim_keeps_first(ls[k].drop_first());
        assert(trim(ls[k]) == trim(ls[k].drop_first()));
        lemma_summary_has_line(ls, k);
    }
}

} // verus!
