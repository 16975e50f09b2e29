//! Deciding whether an installed binary is current from its own `check` report.
//!
//! The checkout HEAD under `git/checkouts` only says what cargo fetched, not
//! whether `~/.cargo/bin/<bin>` was replaced, so the installed commit is taken
//! from what the running binary reports about itself.  When that report
//! cannot be had the outcome is `Unavailable`, never a guess.
use vstd::prelude::*;

use std::time::Duration;

use crate::cargo_log::log_cargo_check_result;
use crate::text::{
    all_hex, chars_eq, chars_of, debug_str, debug_string, debug_string_list, eq_ignore_ascii_case, is_hex,
    is_hex_char, lines, lines_of, push_str, slice_sub, starts_with, starts_with_chars,
    str_eq_ignore_ascii_case, string_of, trim, trim_chars, trim_str, views,
};
use crate::types::{decimal, push_decimal};

verus! {

/// The owner whose applications implement the `check` subcommand.
pub open spec fn check_subcommand_owner() -> Seq<char> {
    "cat2151"@
}

/// The owner whose applications implement the `check` subcommand.
pub fn check_subcommand_owner_str() -> (r: &'static str)
    ensures
        r@ == check_subcommand_owner(),
{
    "cat2151"
}

/// Verdict about the installed binaries of one repository.
#[derive(Debug, PartialEq, Eq)]
pub enum BinCheckOutcome {
    /// `result: up-to-date`.
    UpToDate { embedded: String, remote: String },
    /// `result: update available`.
    UpdateAvailable { embedded: String, remote: String },
    /// No install entry for the repository.
    NotInstalled,
    /// The verdict could not be obtained; no fallback is made.
    Unavailable { reason: String },
}

impl BinCheckOutcome {
    /// The reason given at the end of the log.
    pub fn completion_label(&self) -> (r: String)
        ensures
            r@ == match self {
                BinCheckOutcome::UpToDate { .. } => "binary self-report=up-to-date (ok)"@,
                BinCheckOutcome::UpdateAvailable { .. } => "binary self-report=update available (NG)"@,
                BinCheckOutcome::NotInstalled => "チェック対象外"@,
                BinCheckOutcome::Unavailable { reason } => "判定不能: "@ + reason@,
            },
    {
        let mut s = String::new();
        match self {
            BinCheckOutcome::UpToDate { .. } => push_str(&mut s, "binary self-report=up-to-date (ok)"),
            BinCheckOutcome::UpdateAvailable { .. } => push_str(
                &mut s,
                "binary self-report=update available (NG)",
            ),
            BinCheckOutcome::NotInstalled => push_str(&mut s, "チェック対象外"),
            BinCheckOutcome::Unavailable { reason } => {
                push_str(&mut s, "判定不能: ");
                push_str(&mut s, reason.as_str());
            },
        }
        assert(s@ =~= match self {
            BinCheckOutcome::UpToDate { .. } => "binary self-report=up-to-date (ok)"@,
            BinCheckOutcome::UpdateAvailable { .. } => "binary self-report=update available (NG)"@,
            BinCheckOutcome::NotInstalled => "チェック対象外"@,
            BinCheckOutcome::Unavailable { reason } => "判定不能: "@ + reason@,
        });
        s
    }

    /// The commit hash the binary reported for itself, when there is one.
    pub fn embedded_hash(&self) -> (r: Option<&str>)
        ensures
            match self {
                BinCheckOutcome::UpToDate { embedded, .. } => r matches Some(h) && h@ == embedded@,
                BinCheckOutcome::UpdateAvailable { embedded, .. } => r matches Some(h) && h@
                    == embedded@,
                _ => r is None,
            },
    {
        match self {
            BinCheckOutcome::UpToDate { embedded, .. } => Some(embedded.as_str()),
            BinCheckOutcome::UpdateAvailable { embedded, .. } => Some(embedded.as_str()),
            BinCheckOutcome::NotInstalled => None,
            BinCheckOutcome::Unavailable { .. } => None,
        }
    }
}

/// The three facts read from a `check` report.
#[derive(Debug, PartialEq, Eq)]
pub struct ParsedCheck {
    pub embedded: String,
    pub remote: String,
    pub up_to_date: bool,
}

/// One run of `<bin> check`.
pub struct BinCheckRun {
    pub stdout: String,
    pub stderr: String,
    /// Printable exit status, such as `exit code: 0`.
    pub status_label: String,
    pub success: bool,
    pub elapsed: Duration,
}

/// A full commit hash: forty ASCII hex digits.
pub open spec fn is_commit_hash(v: Seq<char>) -> bool {
    v.len() == 40 && all_hex(v)
}

/// Whether `value` is a full commit hash.
pub fn is_commit_hash_str(value: &[char]) -> (r: bool)
    ensures
        r == is_commit_hash(value@),
{
    if value.len() != 40 {
        return false;
    }
    let mut i: usize = 0;
    while i < value.len()
        invariant
            i <= value@.len(),
            forall|k: int| 0 <= k < i ==> is_hex(#[trigger] value@[k]),
        decreases value@.len() - i,
    {
        if !is_hex_char(value[i]) {
            return false;
        }
        i += 1;
    }
    true
}

/// What has been read of a report so far: embedded, remote, verdict.
pub type ParseState = (Option<Seq<char>>, Option<Seq<char>>, Option<bool>);

/// Reading one line of a report.  A later line for the same key overrides
/// an earlier one; a malformed hash leaves the earlier value, an unknown
/// verdict clears it.
pub open spec fn parse_step(st: ParseState, line: Seq<char>) -> ParseState {
    let l = trim(line);
    if starts_with(l, "embedded:"@) {
        let v = trim(l.skip("embedded:"@.len() as int));
        (if is_commit_hash(v) {
            Some(v)
        } else {
            st.0
        }, st.1, st.2)
    } else if starts_with(l, "remote:"@) {
        let v = trim(l.skip("remote:"@.len() as int));
        (st.0, if is_commit_hash(v) {
            Some(v)
        } else {
            st.1
        }, st.2)
    } else if starts_with(l, "result:"@) {
        let v = trim(l.skip("result:"@.len() as int));
        (st.0, st.1, if v == "up-to-date"@ {
            Some(true)
        } else if v == "update available"@ {
            Some(false)
        } else {
            None
        })
    } else {
        st
    }
}

/// What a sequence of report lines says.
pub open spec fn parse_lines(ls: Seq<Seq<char>>) -> ParseState
    decreases ls.len(),
{
    if ls.len() == 0 {
        (None, None, None)
    } else {
        parse_step(parse_lines(ls.drop_last()), ls.last())
    }
}

/// The report read from `<bin> check` output: all three facts, or nothing.
pub open spec fn parsed_report(stdout: Seq<char>) -> Option<(Seq<char>, Seq<char>, bool)> {
    match parse_lines(lines(stdout)) {
        (Some(e), Some(r), Some(u)) => Some((e, r, u)),
        _ => None,
    }
}

/// The text after `prefix` when `l` starts with it.
fn strip_prefix_lit(l: &Vec<char>, prefix: &str) -> (r: Option<Vec<char>>)
    ensures
        starts_with(l@, prefix@) ==> (r matches Some(v) && v@ == l@.skip(prefix@.len() as int)),
        !starts_with(l@, prefix@) ==> r is None,
{
    let p = chars_of(prefix);
    if starts_with_chars(l.as_slice(), p.as_slice()) {
        let rest = slice_sub(l.as_slice(), p.len(), l.len());
        assert(rest@ =~= l@.skip(prefix@.len() as int));
        Some(rest)
    } else {
        None
    }
}

/// Reads the `<bin> check` report:
///
/// ```text
/// embedded: <40 hex>
/// remote: <40 hex>
/// result: up-to-date | update available
/// ```
///
/// in any order, with surrounding blanks and CRLF allowed and other lines
/// ignored.  Without all three facts there is no report.
pub fn parse_check_output(stdout: &str) -> (r: Option<ParsedCheck>)
    ensures
        match parsed_report(stdout@) {
            Some((e, rm, u)) => r matches Some(p) && p.embedded@ == e && p.remote@ == rm
                && p.up_to_date == u,
            None => r is None,
        },
{
    let ls = lines_of(&chars_of(stdout));
    let mut embedded: Option<Vec<char>> = None;
    let mut remote: Option<Vec<char>> = None;
    let mut up_to_date: Option<bool> = None;
    let up_word = chars_of("up-to-date");
    let avail_word = chars_of("update available");
    let mut i: usize = 0;
    while i < ls.len()
        invariant
            i <= ls@.len(),
            views(ls@) == lines(stdout@),
            up_word@ == "up-to-date"@,
            avail_word@ == "update available"@,
            ({
                let st = parse_lines(views(ls@).take(i as int));
                &&& (match embedded {
                    Some(v) => st.0 == Some(v@),
                    None => st.0 is None,
                })
                &&& (match remote {
                    Some(v) => st.1 == Some(v@),
                    None => st.1 is None,
                })
                &&& st.2 == up_to_date
            }),
        decreases ls@.len() - i,
    {
        assert(views(ls@).take(i + 1).drop_last() =~= views(ls@).take(i as int));
        assert(views(ls@).take(i + 1).last() == ls@[i as int]@);
        let line = trim_chars(ls[i].as_slice());
        if let Some(rest) = strip_prefix_lit(&line, "embedded:") {
            let v = trim_chars(rest.as_slice());
            if is_commit_hash_str(v.as_slice()) {
                embedded = Some(v);
            }
        } else if let Some(rest) = strip_prefix_lit(&line, "remote:") {
            let v = trim_chars(rest.as_slice());
            if is_commit_hash_str(v.as_slice()) {
                remote = Some(v);
            }
        } else if let Some(rest) = strip_prefix_lit(&line, "result:") {
            let v = trim_chars(rest.as_slice());
            up_to_date = if chars_eq(v.as_slice(), up_word.as_slice()) {
                Some(true)
            } else if chars_eq(v.as_slice(), avail_word.as_slice()) {
                Some(false)
            } else {
                None
            };
        }
        i += 1;
    }
    assert(views(ls@).take(ls@.len() as int) =~= views(ls@));
    match (embedded, remote, up_to_date) {
        (Some(e), Some(r), Some(u)) => Some(
            ParsedCheck { embedded: string_of(e.as_slice()), remote: string_of(r.as_slice()), up_to_date: u },
        ),
        _ => None,
    }
}

} // verus!

verus! {

broadcast use vstd::function::group_function_axioms;

/// The verdict in a form that contracts can compare.
pub ghost enum OutcomeView {
    UpToDate(Seq<char>, Seq<char>),
    UpdateAvailable(Seq<char>, Seq<char>),
    NotInstalled,
    Unavailable(Seq<char>),
}

pub open spec fn outcome_view(o: BinCheckOutcome) -> OutcomeView {
    match o {
        BinCheckOutcome::UpToDate { embedded, remote } => OutcomeView::UpToDate(embedded@, remote@),
        BinCheckOutcome::UpdateAvailable { embedded, remote } => OutcomeView::UpdateAvailable(
            embedded@,
            remote@,
        ),
        BinCheckOutcome::NotInstalled => OutcomeView::NotInstalled,
        BinCheckOutcome::Unavailable { reason } => OutcomeView::Unavailable(reason@),
    }
}

/// Why the owner rules the check out.
pub open spec fn other_owner_reason() -> Seq<char> {
    "owner が cat2151 ではないため check サブコマンド実装済みとみなせません"@
}

/// Why an install entry without binaries rules the check out.
pub open spec fn no_bins_reason() -> Seq<char> {
    "cargo install メタデータから bin 名を取得できませんでした"@
}

/// How one run of `<bin> check` ended: its report, or why there is none.
pub open spec fn run_verdict(bin: Seq<char>, run: Result<BinCheckRun, String>) -> Result<
    (Seq<char>, Seq<char>, bool),
    Seq<char>,
> {
    match run {
        Err(reason) => Err(reason@),
        Ok(r) => if !r.success {
            Err(bin + " check が異常終了しました (status="@ + r.status_label@ + ")"@)
        } else {
            match parsed_report(r.stdout@) {
                Some(p) => Ok(p),
                None => Err(bin + " check の出力を解釈できませんでした (check 未実装とみなします)"@),
            }
        },
    }
}

/// The verdicts of the runs made, paired with their binaries.
pub open spec fn verdicts(bins: Seq<String>, runs: Seq<Result<BinCheckRun, String>>) -> Seq<
    Result<(Seq<char>, Seq<char>, bool), Seq<char>>,
> {
    Seq::new(runs.len(), |i: int| run_verdict(bins[i]@, runs[i]))
}

/// Index of the first report that says an update is available, or `vs.len()`.
pub open spec fn first_stale(vs: Seq<Result<(Seq<char>, Seq<char>, bool), Seq<char>>>) -> int
    decreases vs.len(),
{
    if vs.len() == 0 {
        0
    } else if (vs[0] matches Ok(p) && !p.2) {
        0
    } else {
        1 + first_stale(vs.drop_first())
    }
}

/// The verdict of a repository from the runs of its binaries: the failure
/// that stopped the runs, else the first stale binary (one stale binary makes
/// the repository stale), else the first binary's report.
pub open spec fn runs_outcome(vs: Seq<Result<(Seq<char>, Seq<char>, bool), Seq<char>>>) -> OutcomeView {
    match vs.last() {
        Err(reason) => OutcomeView::Unavailable(reason),
        Ok(_) => {
            let k = first_stale(vs);
            if k < vs.len() {
                OutcomeView::UpdateAvailable(vs[k]->Ok_0.0, vs[k]->Ok_0.1)
            } else {
                OutcomeView::UpToDate(vs[0]->Ok_0.0, vs[0]->Ok_0.1)
            }
        },
    }
}

/// `run` is what `run_check` returned for a binary called `bin`.
pub open spec fn run_returned<R: FnMut(&str) -> Result<BinCheckRun, String>>(
    run_check: R,
    bin: Seq<char>,
    run: Result<BinCheckRun, String>,
) -> bool {
    exists|x: &str| x@ == bin && call_ensures(run_check, (x,), run)
}

/// `runs` are what `run_check` returned for the binaries, one after the
/// other, stopping at the first that gave no report.
pub open spec fn runs_made<R: FnMut(&str) -> Result<BinCheckRun, String>>(
    run_check: R,
    bins: Seq<String>,
    runs: Seq<Result<BinCheckRun, String>>,
) -> bool {
    &&& 1 <= runs.len() <= bins.len()
    &&& forall|i: int| 0 <= i < runs.len() ==> #[trigger] run_returned(run_check, bins[i]@, runs[i])
    &&& forall|i: int| 0 <= i < runs.len() - 1 ==> #[trigger] run_verdict(bins[i]@, runs[i]) is Ok
    &&& runs.len() < bins.len() ==> run_verdict(bins[runs.len() - 1]@, runs.last()) is Err
}

/// What each recorded run returned.
pub open spec fn runs_of(made: Seq<(Seq<char>, Result<BinCheckRun, String>)>) -> Seq<
    Result<BinCheckRun, String>,
> {
    made.map_values(|c: (Seq<char>, Result<BinCheckRun, String>)| c.1)
}

/// The runs were made for the first binaries, in list order.
pub open spec fn runs_in_order(
    bins: Seq<String>,
    made: Seq<(Seq<char>, Result<BinCheckRun, String>)>,
) -> bool {
    forall|k: int| 0 <= k < made.len() ==> (#[trigger] made[k]).0 == bins[k]@
}

/// The verdict follows from the binaries listed and the runs `made`, in
/// order: no binary is run when none is listed, when the repository is
/// not `cat2151`'s or when the list is empty; otherwise the binaries are
/// run in list order up to the first that gives no report.
pub open spec fn outcome_explained<R: FnMut(&str) -> Result<BinCheckRun, String>>(
    owner: Seq<char>,
    bins: Option<Vec<String>>,
    run_check: R,
    made: Seq<(Seq<char>, Result<BinCheckRun, String>)>,
    o: BinCheckOutcome,
) -> bool {
    match bins {
        None => outcome_view(o) == OutcomeView::NotInstalled && made.len() == 0,
        Some(bs) => if !eq_ignore_ascii_case(owner, check_subcommand_owner()) {
            outcome_view(o) == OutcomeView::Unavailable(other_owner_reason()) && made.len() == 0
        } else if bs@.len() == 0 {
            outcome_view(o) == OutcomeView::Unavailable(no_bins_reason()) && made.len() == 0
        } else {
            &&& runs_made(run_check, bs@, runs_of(made))
            &&& runs_in_order(bs@, made)
            &&& outcome_view(o) == runs_outcome(verdicts(bs@, runs_of(made)))
        },
    }
}

pub proof fn lemma_first_stale_bounds(vs: Seq<Result<(Seq<char>, Seq<char>, bool), Seq<char>>>)
    ensures
        0 <= first_stale(vs) <= vs.len(),
        first_stale(vs) < vs.len() ==> (vs[first_stale(vs)] matches Ok(p) && !p.2),
        forall|k: int| 0 <= k < first_stale(vs) ==> !(#[trigger] vs[k] matches Ok(p) && !p.2),
    decreases vs.len(),
{
    if vs.len() > 0 && !(vs[0] matches Ok(p) && !p.2) {
        lemma_first_stale_bounds(vs.drop_first());
        assert forall|k: int| 0 <= k < first_stale(vs) implies !(#[trigger] vs[k] matches Ok(p)
            && !p.2) by {
            if k > 0 {
                assert(vs[k] == vs.drop_first()[k - 1]);
            }
        }
    }
}

pub proof fn lemma_first_stale_at(vs: Seq<Result<(Seq<char>, Seq<char>, bool), Seq<char>>>, n: int)
    requires
        0 <= n <= vs.len(),
        n < vs.len() ==> (vs[n] matches Ok(p) && !p.2),
        forall|k: int| 0 <= k < n ==> !(#[trigger] vs[k] matches Ok(p) && !p.2),
    ensures
        first_stale(vs) == n,
    decreases n,
{
    if n > 0 {
        assert(!(vs[0] matches Ok(p) && !p.2));
        assert forall|k: int| 0 <= k < n - 1 implies !(#[trigger] vs.drop_first()[k] matches Ok(p)
            && !p.2) by {
            assert(vs.drop_first()[k] == vs[k + 1]);
        }
        lemma_first_stale_at(vs.drop_first(), n - 1);
    }
}

/// The runs recorded after `c0` are those of `runs`, for the binaries in
/// list order.
proof fn lemma_runs_recorded(
    calls: Seq<(Seq<char>, Result<BinCheckRun, String>)>,
    c0: Seq<(Seq<char>, Result<BinCheckRun, String>)>,
    bins: Seq<String>,
    runs: Seq<Result<BinCheckRun, String>>,
)
    requires
        calls.len() == c0.len() + runs.len(),
        runs.len() <= bins.len(),
        forall|k: int| 0 <= k < runs.len() ==> #[trigger] calls[c0.len() + k] == (bins[k]@, runs[k]),
    ensures
        runs_of(calls.skip(c0.len() as int)) == runs,
        runs_in_order(bins, calls.skip(c0.len() as int)),
{
    let made = calls.skip(c0.len() as int);
    assert forall|k: int| 0 <= k < made.len() implies (#[trigger] made[k]).0 == bins[k]@ by {
        assert(made[k] == calls[c0.len() + k]);
    }
    assert forall|k: int| 0 <= k < runs.len() implies #[trigger] runs_of(made)[k] == runs[k] by {
        assert(made[k] == calls[c0.len() + k]);
    }
    assert(runs_of(made) =~= runs);
}

/// A verdict that the check could not be made, logged.
fn unavailable<L: FnMut(&str)>(
    log_fn: &mut L,
    owner: &str,
    repo_name: &str,
    reason: String,
) -> (r: BinCheckOutcome)
    requires
        forall|s: &str| call_requires(*old(log_fn), (s,)),
    ensures
        forall|s: &str| call_requires(*final(log_fn), (s,)),
        outcome_view(r) == OutcomeView::Unavailable(reason@),
{
    let mut msg = String::new();
    push_str(&mut msg, "binary self-report check ができませんでした: ");
    push_str(&mut msg, reason.as_str());
    log_cargo_check_result(log_fn, owner, repo_name, msg.as_str());
    BinCheckOutcome::Unavailable { reason }
}

/// `Duration::as_millis`: the whole milliseconds of `d` (nothing is
/// stated of the value).
#[verifier::external_body]
fn elapsed_millis(d: &Duration) -> u128 {
    d.as_millis()
}

/// Seconds with one decimal of `ms` milliseconds, as logged (`1.2s`).
pub open spec fn elapsed_text(ms: u128) -> Seq<char> {
    let secs: u64 = if ms / 1000 > u64::MAX as u128 {
        u64::MAX
    } else {
        (ms / 1000) as u64
    };
    decimal(secs as nat) + "."@ + decimal(((ms % 1000) / 100) as nat) + "s"@
}

/// The log line of one `<bin> check` run that took `ms` milliseconds: the
/// command, its status and its trimmed, quoted outputs.
pub open spec fn run_log_text(
    owner: Seq<char>,
    repo_name: Seq<char>,
    bin: Seq<char>,
    run: BinCheckRun,
    ms: u128,
) -> Seq<char> {
    "cargo check: リポジトリ="@ + owner + "/"@ + repo_name + " bin="@ + bin + " コマンド=`"@ + bin
        + " check` 結果=status="@ + run.status_label@ + " 標準出力="@ + debug_str(trim(run.stdout@))
        + " 標準エラー="@ + debug_str(trim(run.stderr@)) + " 所要="@ + elapsed_text(ms)
}

/// The log line of one run; the elapsed time is the run's duration in
/// whole milliseconds (`Duration::as_millis`, not stated).
fn run_log_line(owner: &str, repo_name: &str, bin: &str, run: &BinCheckRun) -> (r: String)
    ensures
        exists|ms: u128|
            #![trigger run_log_text(owner@, repo_name@, bin@, *run, ms)]
            r@ == run_log_text(owner@, repo_name@, bin@, *run, ms),
{
    let mut s = String::new();
    push_str(&mut s, "cargo check: リポジトリ=");
    push_str(&mut s, owner);
    push_str(&mut s, "/");
    push_str(&mut s, repo_name);
    push_str(&mut s, " bin=");
    push_str(&mut s, bin);
    push_str(&mut s, " コマンド=`");
    push_str(&mut s, bin);
    push_str(&mut s, " check` 結果=status=");
    push_str(&mut s, run.status_label.as_str());
    push_str(&mut s, " 標準出力=");
    let out = debug_string(trim_str(run.stdout.as_str()).as_str());
    push_str(&mut s, out.as_str());
    push_str(&mut s, " 標準エラー=");
    let err = debug_string(trim_str(run.stderr.as_str()).as_str());
    push_str(&mut s, err.as_str());
    push_str(&mut s, " 所要=");
    let ms = elapsed_millis(&run.elapsed);
    let secs: u64 = if ms / 1000 > u64::MAX as u128 {
        u64::MAX
    } else {
        (ms / 1000) as u64
    };
    push_decimal(&mut s, secs);
    push_str(&mut s, ".");
    push_decimal(&mut s, ((ms % 1000) / 100) as u64);
    push_str(&mut s, "s");
    assert(s@ =~= run_log_text(owner@, repo_name@, bin@, *run, ms));
    s
}

/// Runs `<bin> check` through `run`, keeping as ghost state each binary it
/// was asked to run and what came back, in order.
pub struct CheckRunner<R> {
    pub run: R,
    pub calls: Ghost<Seq<(Seq<char>, Result<BinCheckRun, String>)>>,
}

impl<R: FnMut(&str) -> Result<BinCheckRun, String>> CheckRunner<R> {
    /// A runner that has run nothing yet.
    pub fn new(run: R) -> (r: Self)
        ensures
            r.run == run,
            r.calls@ == Seq::<(Seq<char>, Result<BinCheckRun, String>)>::empty(),
    {
        CheckRunner { run, calls: Ghost(Seq::empty()) }
    }

    /// Runs `<bin> check` once and records it.
    pub fn call(&mut self, bin: &str) -> (r: Result<BinCheckRun, String>)
        requires
            call_requires(old(self).run, (bin,)),
        ensures
            final(self).run == old(self).run,
            call_ensures(old(self).run, (bin,), r),
            final(self).calls@ == old(self).calls@.push((bin@, r)),
    {
        let r = (self.run)(bin);
        proof {
            self.calls@ = self.calls@.push((bin@, r));
        }
        r
    }
}

/// The verdict for the binaries of `owner/repo_name`.
///
/// `list_bins` gives the installed binaries (`None`: no install entry) and
/// `runner` runs one `<bin> check` and records it; both are handed in so
/// that the rules can be exercised without starting processes.
pub fn check_installed_bins_with<L, B, R>(
    owner: &str,
    repo_name: &str,
    log_fn: L,
    list_bins: B,
    runner: &mut CheckRunner<R>,
) -> (r: BinCheckOutcome) where
    L: FnMut(&str),
    B: FnMut(&str, &str) -> Option<Vec<String>>,
    R: FnMut(&str) -> Result<BinCheckRun, String>,

    requires
        forall|s: &str| call_requires(log_fn, (s,)),
        call_requires(list_bins, (owner, repo_name)),
        forall|s: &str| call_requires(old(runner).run, (s,)),
    ensures
        final(runner).run == old(runner).run,
        final(runner).calls@.take(old(runner).calls@.len() as int) == old(runner).calls@,
        exists|bins: Option<Vec<String>>|
            call_ensures(list_bins, (owner, repo_name), bins) && outcome_explained(
                owner@,
                bins,
                old(runner).run,
                final(runner).calls@.skip(old(runner).calls@.len() as int),
                r,
            ),
{
    let mut log_fn = log_fn;
    let mut list_bins = list_bins;
    let outcome = resolve_installed_bins_outcome(
        owner,
        repo_name,
        &mut log_fn,
        &mut list_bins,
        runner,
    );
    let label = outcome.completion_label();
    let mut msg = String::new();
    push_str(&mut msg, "終了: binary self-report check を完了しました (");
    push_str(&mut msg, label.as_str());
    push_str(&mut msg, ")");
    log_cargo_check_result(&mut log_fn, owner, repo_name, msg.as_str());
    outcome
}

fn resolve_installed_bins_outcome<L, B, R>(
    owner: &str,
    repo_name: &str,
    log_fn: &mut L,
    list_bins: &mut B,
    runner: &mut CheckRunner<R>,
) -> (r: BinCheckOutcome) where
    L: FnMut(&str),
    B: FnMut(&str, &str) -> Option<Vec<String>>,
    R: FnMut(&str) -> Result<BinCheckRun, String>,

    requires
        forall|s: &str| call_requires(*old(log_fn), (s,)),
        call_requires(*old(list_bins), (owner, repo_name)),
        forall|s: &str| call_requires(old(runner).run, (s,)),
    ensures
        forall|s: &str| call_requires(*final(log_fn), (s,)),
        final(runner).run == old(runner).run,
        final(runner).calls@.take(old(runner).calls@.len() as int) == old(runner).calls@,
        exists|bins: Option<Vec<String>>|
            call_ensures(*old(list_bins), (owner, repo_name), bins) && outcome_explained(
                owner@,
                bins,
                old(runner).run,
                final(runner).calls@.skip(old(runner).calls@.len() as int),
                r,
            ),
{
    let ghost c0 = runner.calls@;
    proof {
        assert(c0.take(c0.len() as int) =~= c0);
        assert(c0.skip(c0.len() as int) =~= Seq::<(Seq<char>, Result<BinCheckRun, String>)>::empty());
    }
    let listed = list_bins(owner, repo_name);
    let ghost listed_v = listed;
    assert(call_ensures(*old(list_bins), (owner, repo_name), listed_v));
    let bins = match listed {
        None => {
            assert(outcome_explained(owner@, listed_v, old(runner).run, runner.calls@.skip(c0.len() as int), BinCheckOutcome::NotInstalled));
            log_cargo_check_result(
                log_fn,
                owner,
                repo_name,
                "cargo install メタデータ内に対象リポジトリが見つからないため、binary self-report check をスキップします",
            );
            return BinCheckOutcome::NotInstalled;
        },
        Some(bins) => bins,
    };
    if !str_eq_ignore_ascii_case(owner, check_subcommand_owner_str()) {
        let mut reason = String::new();
        push_str(&mut reason, "owner が cat2151 ではないため check サブコマンド実装済みとみなせません");
        assert(reason@ =~= other_owner_reason());
        let r = unavailable(log_fn, owner, repo_name, reason);
        assert(outcome_explained(owner@, listed_v, old(runner).run, runner.calls@.skip(c0.len() as int), r));
        return r;
    }
    if bins.len() == 0 {
        let mut reason = String::new();
        push_str(&mut reason, "cargo install メタデータから bin 名を取得できませんでした");
        assert(reason@ =~= no_bins_reason());
        let r = unavailable(log_fn, owner, repo_name, reason);
        assert(outcome_explained(owner@, listed_v, old(runner).run, runner.calls@.skip(c0.len() as int), r));
        return r;
    }
    let listing = debug_string_list(bins.as_slice());
    let mut msg = String::new();
    push_str(&mut msg, "binary self-report check の対象 bin=");
    push_str(&mut msg, listing.as_str());
    log_cargo_check_result(log_fn, owner, repo_name, msg.as_str());

    let ghost rc = old(runner).run;
    let ghost mut runs: Seq<Result<BinCheckRun, String>> = seq![];
    let mut stale: Option<ParsedCheck> = None;
    let mut first_up: Option<ParsedCheck> = None;
    let mut i: usize = 0;
    while i < bins.len()
        invariant
            i <= bins@.len(),
            bins@.len() > 0,
            eq_ignore_ascii_case(owner@, check_subcommand_owner()),
            forall|s: &str| call_requires(*log_fn, (s,)),
            forall|s: &str| call_requires(rc, (s,)),
            runner.run == rc,
            c0 == old(runner).calls@,
            runner.calls@.len() == c0.len() + i,
            runner.calls@.take(c0.len() as int) == c0,
            forall|k: int|
                0 <= k < i ==> #[trigger] runner.calls@[c0.len() + k] == (bins@[k]@, runs[k]),
            rc == old(runner).run,
            listed_v == Some(bins),
            i == 0 ==> first_up is None,
            call_ensures(*old(list_bins), (owner, repo_name), listed_v),
            runs.len() == i,
            forall|k: int| 0 <= k < i ==> #[trigger] run_returned(rc, bins@[k]@, runs[k]),
            forall|k: int| 0 <= k < i ==> #[trigger] run_verdict(bins@[k]@, runs[k]) is Ok,
            ({
                let vs = verdicts(bins@, runs);
                &&& (match stale {
                    Some(p) => first_stale(vs) < i && vs[first_stale(vs)] == Ok::<
                        (Seq<char>, Seq<char>, bool),
                        Seq<char>,
                    >((p.embedded@, p.remote@, p.up_to_date)),
                    None => first_stale(vs) == i,
                })
                &&& (first_stale(vs) == i && i > 0 ==> (first_up matches Some(p) && vs[0] == Ok::<
                    (Seq<char>, Seq<char>, bool),
                    Seq<char>,
                >((p.embedded@, p.remote@, p.up_to_date))))
            }),
        decreases bins@.len() - i,
    {
        let bin: &str = bins[i].as_str();
        let ghost cs0 = runner.calls@;
        let result = runner.call(bin);
        let ghost vs0 = verdicts(bins@, runs);
        let ghost runs0 = runs;
        proof {
            runs = runs.push(result);
            assert(runner.calls@.take(c0.len() as int) =~= cs0.take(c0.len() as int));
            assert forall|k: int| 0 <= k < i + 1 implies #[trigger] runner.calls@[c0.len() + k] == (
                bins@[k]@,
                runs[k],
            ) by {
                if k < i {
                    assert(runner.calls@[c0.len() + k] == cs0[c0.len() + k]);
                }
            }
            lemma_runs_recorded(runner.calls@, c0, bins@, runs);
            lemma_first_stale_bounds(vs0);
            assert(runs[i as int] == result);
            assert(call_ensures(rc, (bin,), result));
            assert(run_returned(rc, bins@[i as int]@, result));
            assert forall|k: int| 0 <= k < i + 1 implies #[trigger] run_returned(rc, bins@[k]@, runs[k]) by {
                if k < i {
                    assert(runs[k] == runs0[k]);
                }
            }
            assert forall|k: int| 0 <= k < i implies #[trigger] run_verdict(bins@[k]@, runs[k]) is Ok by {
                assert(runs[k] == runs0[k]);
            }
        }
        let ghost vs = verdicts(bins@, runs);
        assert(vs.take(i as int) =~= vs0);
        let run = match result {
            Ok(run) => run,
            Err(reason) => {
                proof {
                    assert(vs.last() == Err::<(Seq<char>, Seq<char>, bool), Seq<char>>(reason@));
                    assert(1 <= runs.len() <= bins@.len());
                    assert(forall|k: int| 0 <= k < runs.len() - 1 ==> #[trigger] run_verdict(bins@[k]@, runs[k]) is Ok);
                    assert(run_verdict(bins@[runs.len() - 1]@, runs.last()) is Err);
                    assert(runs_made(rc, bins@, runs));
                }
                let r = unavailable(log_fn, owner, repo_name, reason);
                assert(outcome_view(r) == runs_outcome(vs));
                assert(outcome_explained(owner@, listed_v, old(runner).run, runner.calls@.skip(c0.len() as int), r));
                return r;
            },
        };
        let line = run_log_line(owner, repo_name, bin, &run);
        log_fn(line.as_str());
        if !run.success {
            let mut reason = String::new();
            push_str(&mut reason, bin);
            push_str(&mut reason, " check が異常終了しました (status=");
            push_str(&mut reason, run.status_label.as_str());
            push_str(&mut reason, ")");
            proof {
                assert(reason@ =~= bins@[i as int]@ + " check が異常終了しました (status="@
                    + run.status_label@ + ")"@);
                assert(runs_made(rc, bins@, runs));
            }
            let r = unavailable(log_fn, owner, repo_name, reason);
            assert(outcome_view(r) == runs_outcome(vs));
            assert(outcome_explained(owner@, listed_v, old(runner).run, runner.calls@.skip(c0.len() as int), r));
            return r;
        }
        let parsed = match parse_check_output(run.stdout.as_str()) {
            Some(p) => p,
            None => {
                let mut reason = String::new();
                push_str(&mut reason, bin);
                push_str(&mut reason, " check の出力を解釈できませんでした (check 未実装とみなします)");
                proof {
                    assert(reason@ =~= bins@[i as int]@
                        + " check の出力を解釈できませんでした (check 未実装とみなします)"@);
                    assert(runs_made(rc, bins@, runs));
                }
                let r = unavailable(log_fn, owner, repo_name, reason);
                assert(outcome_view(r) == runs_outcome(vs));
                assert(outcome_explained(owner@, listed_v, old(runner).run, runner.calls@.skip(c0.len() as int), r));
                return r;
            },
        };
        assert(vs[i as int] == Ok::<(Seq<char>, Seq<char>, bool), Seq<char>>(
            (parsed.embedded@, parsed.remote@, parsed.up_to_date),
        ));
        if parsed.up_to_date {
            if first_up.is_none() {
                first_up = Some(parsed);
            }
        } else if stale.is_none() {
            stale = Some(parsed);
        }
        proof {
            lemma_first_stale_bounds(vs);
            assert forall|k: int| 0 <= k < i implies vs[k] == vs0[k] by {
                assert(vs.take(i as int)[k] == vs[k]);
            }
            if first_stale(vs0) < i {
                lemma_first_stale_at(vs, first_stale(vs0));
            } else if !vs[i as int]->Ok_0.2 {
                lemma_first_stale_at(vs, i as int);
            } else {
                lemma_first_stale_at(vs, i + 1);
            }
        }
        i += 1;
    }
    let ghost vs = verdicts(bins@, runs);
    proof {
        assert(runs_made(rc, bins@, runs));
        lemma_runs_recorded(runner.calls@, c0, bins@, runs);
    }
    match stale {
        Some(p) => {
            let mut msg = String::new();
            push_str(&mut msg, "binary self-report を採用: embedded=");
            push_str(&mut msg, p.embedded.as_str());
            push_str(&mut msg, " remote=");
            push_str(&mut msg, p.remote.as_str());
            push_str(&mut msg, " 判定=update available (NG)");
            log_cargo_check_result(log_fn, owner, repo_name, msg.as_str());
            let r = BinCheckOutcome::UpdateAvailable { embedded: p.embedded, remote: p.remote };
            proof {
                lemma_first_stale_bounds(vs);
                assert(outcome_view(r) == runs_outcome(vs));
                assert(outcome_explained(owner@, listed_v, old(runner).run, runner.calls@.skip(c0.len() as int), r));
            }
            r
        },
        None => {
            let p = match first_up {
                Some(p) => p,
                None => {
                    proof {
                        assert(false);
                    }
                    ParsedCheck { embedded: String::new(), remote: String::new(), up_to_date: true }
                },
            };
            let mut msg = String::new();
            push_str(&mut msg, "binary self-report を採用: embedded=");
            push_str(&mut msg, p.embedded.as_str());
            push_str(&mut msg, " remote=");
            push_str(&mut msg, p.remote.as_str());
            push_str(&mut msg, " 判定=up-to-date (ok)");
            log_cargo_check_result(log_fn, owner, repo_name, msg.as_str());
            let r = BinCheckOutcome::UpToDate { embedded: p.embedded, remote: p.remote };
            proof {
                assert(outcome_view(r) == runs_outcome(vs));
                assert(outcome_explained(owner@, listed_v, old(runner).run, runner.calls@.skip(c0.len() as int), r));
            }
            r
        },
    }
}

} // verus!
