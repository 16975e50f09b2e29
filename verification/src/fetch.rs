//! Turning the GitHub listing of an owner's repositories into repository
//! records: dates, the cache key of a response, the display order, and what
//! is carried over from the cached records.
use vstd::prelude::*;

use crate::cargo_checks::{CargoCheckFields};
use crate::history::{find_first_named, first_named};
use crate::order::{SortKey, key_view, key_views, precedes, sort_indices_stable, sorted_stable};
use crate::text::{push_char, push_str};
use crate::types::{
    IssueOrPr, LocalStatus, RateLimit, RepoInfo, AutoUpdateLaunchRequest, copy_strings, decimal,
    push_decimal, same_repo,
};

verus! {

/// One open issue as listed by the API.
pub struct GqlIssue {
    pub title: String,
    pub number: u64,
    pub updated_at: String,
}

/// One open pull request as listed by the API, with the numbers of the
/// issues it closes.
pub struct GqlPr {
    pub title: String,
    pub number: u64,
    pub updated_at: String,
    pub closing_issue_numbers: Vec<u64>,
}

/// One repository as listed by the API.
pub struct GqlRepo {
    pub name: String,
    pub name_with_owner: String,
    pub updated_at: String,
    pub is_fork: bool,
    pub is_archived: bool,
    pub is_private: bool,
    pub issues_total: u64,
    pub issues: Vec<GqlIssue>,
    pub prs_total: u64,
    pub prs: Vec<GqlPr>,
}

/// Progress reported by the fetch pipeline to the interface.
pub enum FetchProgress {
    Log(String),
    BackgroundChecksCompleted,
    /// Reset issue/PR pending state for the next repo refresh pass.
    BeginRepoRefresh(Vec<String>),
    /// Reset local-status pending state for repos whose local check is about to run.
    BeginLocalRefresh(Vec<String>),
    /// Reset cargo pending state for repos whose cargo check is about to run.
    BeginCargoRefresh(Vec<String>),
    /// Progress of a background task: (tag, cur, total).
    PhaseProgress { tag: &'static str, cur: usize, total: usize },
    /// A repository as just fetched.
    RepoUpdate(Box<RepoInfo>),
    /// The repository being checked now.
    CheckingRepo(String),
    /// The findings of the checks of one repository.
    ExistenceUpdate {
        name: String,
        local_status: LocalStatus,
        has_local_git: bool,
        staging_files: Vec<String>,
        local_head_hash: String,
        readme_ja: Option<bool>,
        readme_ja_cat: String,
        readme_ja_badge: Option<bool>,
        readme_ja_badge_cat: String,
        pages: Option<bool>,
        pages_cat: String,
        deepwiki: Option<bool>,
        deepwiki_cat: String,
        wf_workflows: Option<bool>,
        wf_cat: String,
    },
    /// The cargo fields of one repository.
    CargoUpdate { name: String, fields: CargoCheckFields },
    RequestAutoUpdateLaunch(AutoUpdateLaunchRequest),
    Done(Result<(Vec<RepoInfo>, RateLimit), String>),
}

/// The FNV-1a prime.
pub open spec fn fnv_prime() -> u64 {
    0x100000001b3
}

/// The FNV-1a offset basis.
pub open spec fn fnv_offset() -> u64 {
    0xcbf29ce484222325
}

/// 64-bit FNV-1a of `bytes`.
pub open spec fn fnv1a_of(bytes: Seq<u8>) -> u64
    decreases bytes.len(),
{
    if bytes.len() == 0 {
        fnv_offset()
    } else {
        vstd::wrapping::u64_specs::wrapping_mul(
            fnv1a_of(bytes.drop_last()) ^ (bytes.last() as u64),
            fnv_prime(),
        )
    }
}

/// 64-bit FNV-1a of the UTF-8 bytes of `s`.
pub fn fnv1a(s: &str) -> (r: u64)
    ensures
        r == fnv1a_of(vstd::utf8::encode_utf8(s@)),
{
    let b = s.as_bytes();
    let ghost bv = b@;
    assert(bv == vstd::utf8::encode_utf8(s@));
    let mut hash: u64 = 0xcbf29ce484222325;
    let mut i: usize = 0;
    assert(bv.take(0) =~= seq![]);
    while i < b.len()
        invariant
            i <= bv.len(),
            bv == b@,
            hash == fnv1a_of(bv.take(i as int)),
        decreases bv.len() - i,
    {
        proof {
            assert(bv.take(i + 1).drop_last() =~= bv.take(i as int));
            assert(bv.take(i + 1).last() == bv[i as int]);
        }
        hash = hash ^ (b[i] as u64);
        hash = hash.wrapping_mul(0x100000001b3);
        i += 1;
    }
    assert(bv.take(bv.len() as int) =~= bv);
    hash
}

/// The lowercase hexadecimal digit of `d`.
pub open spec fn hex_digit(d: nat) -> char {
    if d < 10 {
        ((d + 48) as u32) as char
    } else {
        ((d + 87) as u32) as char
    }
}

/// `n` in lowercase hexadecimal, without leading zeros (`0` for zero).
pub open spec fn hex_text(n: nat) -> Seq<char>
    decreases n,
{
    if n < 16 {
        seq![hex_digit(n)]
    } else {
        hex_text(n / 16).push(hex_digit(n % 16))
    }
}

/// `format!("{:x}", n)`.
pub fn hex_string(n: u64) -> (r: String)
    ensures
        r@ == hex_text(n as nat),
    decreases n,
{
    let mut s = if n < 16 {
        String::new()
    } else {
        hex_string(n / 16)
    };
    let d = n % 16;
    let c: char = if d < 10 {
        ((d as u8) + 48) as char
    } else {
        ((d as u8) + 87) as char
    };
    assert(c == hex_digit(d as nat));
    push_char(&mut s, c);
    s
}

/// The cache key of an owner's listing.
pub open spec fn etag_key_text(owner: Seq<char>) -> Seq<char> {
    "repos:"@ + owner
}

/// The cache key of an owner's listing: `repos:<owner>`.
pub fn etag_key(owner: &str) -> (r: String)
    ensures
        r@ == etag_key_text(owner@),
{
    let mut s = String::new();
    push_str(&mut s, "repos:");
    push_str(&mut s, owner);
    s
}

/// The first page is answered from the cache when its hash is the one
/// cached for the listing and repositories are cached.
pub fn first_page_cached(cached_hash: Option<&String>, response_hash: &str, have_repos: bool) -> (r:
    bool)
    ensures
        r == (cached_hash matches Some(h) && h@ == response_hash@ && have_repos),
{
    match cached_hash {
        Some(h) => crate::text::str_eq(h.as_str(), response_hash) && have_repos,
        None => false,
    }
}

/// The instant an ISO 8601 / RFC 3339 text names, as seconds since the
/// epoch and nanoseconds, when it parses as a UTC date-time.
pub uninterp spec fn utc_instant(iso: Seq<char>) -> Option<(i64, u32)>;

/// `str::parse::<chrono::DateTime<Utc>>`, then `timestamp` and
/// `timestamp_subsec_nanos`.
#[verifier::external_body]
fn parse_utc(iso: &str) -> (r: Option<(i64, u32)>)
    ensures
        r == utc_instant(iso@),
{
    match iso.parse::<chrono::DateTime<chrono::Utc>>() {
        Ok(dt) => Some((dt.timestamp(), dt.timestamp_subsec_nanos())),
        Err(_) => None,
    }
}

/// `%Y-%m-%dT%H:%M:%SZ` of an instant, when chrono can represent it.
pub uninterp spec fn utc_seconds_text(secs: i64, nanos: u32) -> Option<Seq<char>>;

/// `chrono::DateTime::<Utc>::from_timestamp(secs, nanos)` formatted with
/// `%Y-%m-%dT%H:%M:%SZ`.
#[verifier::external_body]
fn format_utc_seconds(secs: i64, nanos: u32) -> (r: Option<String>)
    ensures
        match r {
            Some(t) => utc_seconds_text(secs, nanos) == Some(t@),
            None => utc_seconds_text(secs, nanos) is None,
        },
{
    match chrono::DateTime::<chrono::Utc>::from_timestamp(secs, nanos) {
        Some(dt) => Some(dt.format("%Y-%m-%dT%H:%M:%SZ").to_string()),
        None => None,
    }
}

/// The current instant as seconds and nanoseconds since the epoch, read with
/// `SystemTime::now().duration_since(UNIX_EPOCH)`: `None` when the clock reads
/// before the epoch or its seconds do not fit in an `i64`. What the clock
/// reads is left unsaid.
#[verifier::external_body]
fn clock_now() -> (r: Option<(i64, u32)>)
    ensures
        r matches Some((s, n)) ==> s >= 0 && n < 1_000_000_000,
{
    match std::time::SystemTime::now().duration_since(std::time::UNIX_EPOCH) {
        Ok(d) => i64::try_from(d.as_secs()).ok().map(|s| (s, d.subsec_nanos())),
        Err(_) => None,
    }
}

/// A date-time normalized to `2024-03-15T10:30:00Z`; text that does not
/// parse is kept as it is.
pub open spec fn iso_date_text(iso: Seq<char>) -> Seq<char> {
    match utc_instant(iso) {
        Some((s, n)) => match utc_seconds_text(s, n) {
            Some(t) => t,
            None => iso,
        },
        None => iso,
    }
}

/// A date-time normalized to seconds precision in UTC.
pub fn format_date_iso(iso: &str) -> (r: String)
    ensures
        r@ == iso_date_text(iso@),
{
    match parse_utc(iso) {
        Some((s, n)) => match format_utc_seconds(s, n) {
            Some(t) => t,
            None => iso.to_owned(),
        },
        None => iso.to_owned(),
    }
}

/// Nanoseconds in a day.
pub open spec fn day_nanos() -> int {
    86_400_000_000_000
}

/// How long ago, for `diff` nanoseconds: `today` under a day, then whole
/// days (`3d`) under a week, weeks (`2w`) under 30 days, 30-day months
/// (`1mo`) under a year, else 365-day years (`2y`).
pub open spec fn relative_text(diff: int) -> Seq<char> {
    let days = (diff / 1_000_000_000) / 86_400;
    if diff < day_nanos() {
        "today"@
    } else if diff < 7 * day_nanos() {
        decimal(days as nat) + "d"@
    } else if diff < 30 * day_nanos() {
        decimal((days / 7) as nat) + "w"@
    } else if diff < 365 * day_nanos() {
        decimal((days / 30) as nat) + "mo"@
    } else {
        decimal((days / 365) as nat) + "y"@
    }
}

/// Nanoseconds from `then` to `now`.
pub open spec fn nanos_between(now: (i64, u32), then: (i64, u32)) -> int {
    (now.0 - then.0) * 1_000_000_000 + (now.1 - then.1)
}

/// How long before `now` the date-time `iso` was; text that does not parse
/// is kept as it is.
pub fn relative_date_at(iso: &str, now_secs: i64, now_nanos: u32) -> (r: String)
    ensures
        match utc_instant(iso@) {
            Some(t) => r@ == relative_text(nanos_between((now_secs, now_nanos), t)),
            None => r@ == iso@,
        },
{
    let (s, n) = match parse_utc(iso) {
        Some(t) => t,
        None => {
            return iso.to_owned();
        },
    };
    let diff: i128 = ((now_secs as i128) - (s as i128)) * 1_000_000_000 + ((now_nanos as i128) - (
    n as i128));
    assert(diff == nanos_between((now_secs, now_nanos), (s, n)));
    let day: i128 = 86_400_000_000_000;
    if diff < day {
        return "today".to_owned();
    }
    let days: i128 = (diff / 1_000_000_000) / 86_400;
    assert(diff < 0x2_0000_0000_0000_0000 * 1_000_000_000) by (nonlinear_arith)
        requires
            diff == ((now_secs as i128) - (s as i128)) * 1_000_000_000 + ((now_nanos as i128) - (
            n as i128)),
            (now_secs as i128) - (s as i128) < 0x1_0000_0000_0000_0000,
            (now_nanos as i128) - (n as i128) < 0x1_0000_0000,
    ;
    assert(0 < days < 0x1_0000_0000_0000_0000) by (nonlinear_arith)
        requires
            diff >= day,
            day == 86_400_000_000_000,
            days == (diff / 1_000_000_000) / 86_400,
            diff < 0x2_0000_0000_0000_0000 * 1_000_000_000,
    ;
    let mut out = String::new();
    if diff < 7 * day {
        push_decimal(&mut out, days as u64);
        push_str(&mut out, "d");
    } else if diff < 30 * day {
        push_decimal(&mut out, (days / 7) as u64);
        push_str(&mut out, "w");
    } else if diff < 365 * day {
        push_decimal(&mut out, (days / 30) as u64);
        push_str(&mut out, "mo");
    } else {
        push_decimal(&mut out, (days / 365) as u64);
        push_str(&mut out, "y");
    }
    out
}

/// How long ago the date-time `iso` was, as of now; text that does not
/// parse, or a clock that reads before the epoch, leaves `iso` as it is.
pub fn relative_date(iso: &str) -> (r: String)
    ensures
        match utc_instant(iso@) {
            Some(t) => r@ == iso@ || exists|now: (i64, u32)|
                now.0 >= 0 && now.1 < 1_000_000_000 && r@ == relative_text(nanos_between(now, t)),
            None => r@ == iso@,
        },
{
    match clock_now() {
        Some((s, n)) => relative_date_at(iso, s, n),
        None => iso.to_owned(),
    }
}

/// The listed item made from an open issue.
pub open spec fn issue_item_spec(i: GqlIssue, full_name: Seq<char>, now: (i64, u32), it: IssueOrPr) -> bool {
    &&& it.title@ == i.title@
    &&& it.number == i.number
    &&& it.updated_at@ == relative_date_text(i.updated_at@, now)
    &&& it.updated_at_raw@ == iso_date_text(i.updated_at@)
    &&& it.repo_full@ == full_name
    &&& !it.is_pr
    &&& it.closes_issue is None
}

/// The listed item made from an open pull request: it names the issue it
/// closes when it closes exactly one.
pub open spec fn pr_item_spec(p: GqlPr, full_name: Seq<char>, now: (i64, u32), it: IssueOrPr) -> bool {
    &&& it.title@ == p.title@
    &&& it.number == p.number
    &&& it.updated_at@ == relative_date_text(p.updated_at@, now)
    &&& it.updated_at_raw@ == iso_date_text(p.updated_at@)
    &&& it.repo_full@ == full_name
    &&& it.is_pr
    &&& it.closes_issue == if p.closing_issue_numbers@.len() == 1 {
        Some(p.closing_issue_numbers@[0])
    } else {
        None
    }
}

/// `relative_date_at`'s text for `iso` at `now`.
pub open spec fn relative_date_text(iso: Seq<char>, now: (i64, u32)) -> Seq<char> {
    match utc_instant(iso) {
        Some(t) => relative_text(nanos_between(now, t)),
        None => iso,
    }
}

fn issue_item(i: &GqlIssue, full_name: &str, now: (i64, u32)) -> (r: IssueOrPr)
    ensures
        issue_item_spec(*i, full_name@, now, r),
{
    IssueOrPr {
        title: i.title.clone(),
        updated_at: relative_date_at(i.updated_at.as_str(), now.0, now.1),
        updated_at_raw: format_date_iso(i.updated_at.as_str()),
        number: i.number,
        repo_full: full_name.to_owned(),
        is_pr: false,
        closes_issue: None,
    }
}

fn pr_item(p: &GqlPr, full_name: &str, now: (i64, u32)) -> (r: IssueOrPr)
    ensures
        pr_item_spec(*p, full_name@, now, r),
{
    let closes = if p.closing_issue_numbers.len() == 1 {
        Some(p.closing_issue_numbers[0])
    } else {
        None
    };
    IssueOrPr {
        title: p.title.clone(),
        updated_at: relative_date_at(p.updated_at.as_str(), now.0, now.1),
        updated_at_raw: format_date_iso(p.updated_at.as_str()),
        number: p.number,
        repo_full: full_name.to_owned(),
        is_pr: true,
        closes_issue: closes,
    }
}

/// The findings of the earlier checks carried over from the cached record
/// `h` (none when the repository was not cached).
pub open spec fn carried_checks(h: Option<RepoInfo>, r: RepoInfo) -> bool {
    match h {
        Some(h) => {
            &&& r.readme_ja == h.readme_ja
            &&& r.readme_ja_checked_at@ == h.readme_ja_checked_at@
            &&& r.readme_ja_badge == h.readme_ja_badge
            &&& r.readme_ja_badge_checked_at@ == h.readme_ja_badge_checked_at@
            &&& r.pages == h.pages
            &&& r.pages_checked_at@ == h.pages_checked_at@
            &&& r.deepwiki == h.deepwiki
            &&& r.deepwiki_checked_at@ == h.deepwiki_checked_at@
            &&& r.cargo_install == h.cargo_install
            &&& r.cargo_checked_at@ == h.cargo_checked_at@
            &&& r.cargo_remote_hash@ == h.cargo_remote_hash@
            &&& r.cargo_remote_hash_checked_at@ == h.cargo_remote_hash_checked_at@
            &&& r.cargo_installed_hash@ == h.cargo_installed_hash@
            &&& r.cargo_check_failed == h.cargo_check_failed
            &&& r.cargo_bin_check == h.cargo_bin_check
            &&& r.wf_workflows == h.wf_workflows
            &&& r.wf_checked_at@ == h.wf_checked_at@
        },
        None => {
            &&& r.readme_ja is None
            &&& r.readme_ja_checked_at@.len() == 0
            &&& r.readme_ja_badge is None
            &&& r.readme_ja_badge_checked_at@.len() == 0
            &&& r.pages is None
            &&& r.pages_checked_at@.len() == 0
            &&& r.deepwiki is None
            &&& r.deepwiki_checked_at@.len() == 0
            &&& r.cargo_install is None
            &&& r.cargo_checked_at@.len() == 0
            &&& r.cargo_remote_hash@.len() == 0
            &&& r.cargo_remote_hash_checked_at@.len() == 0
            &&& r.cargo_installed_hash@.len() == 0
            &&& !r.cargo_check_failed
            &&& r.cargo_bin_check is None
            &&& r.wf_workflows is None
            &&& r.wf_checked_at@.len() == 0
        },
    }
}

/// `info` is the record of the listed repository `repo`: its listing
/// fields, and the local state and check findings of its cached record in
/// `history_repos`.  A repository that was not cached has its clone read
/// (`check_local_status`, and `local_head_hash` for a git clone) and no
/// findings.
pub open spec fn listed_repo<C, H>(
    history_repos: Seq<RepoInfo>,
    repo: GqlRepo,
    now: (i64, u32),
    check_local_status: C,
    local_head_hash: H,
    info: RepoInfo,
) -> bool where
    C: FnMut(&str) -> (LocalStatus, bool, Vec<String>),
    H: FnMut(&str) -> String,
 {
    let i = first_named(history_repos, repo.name@);
    &&& info.name@ == repo.name@
    &&& info.full_name@ == repo.name_with_owner@
    &&& info.updated_at@ == relative_date_text(repo.updated_at@, now)
    &&& info.updated_at_raw@ == iso_date_text(repo.updated_at@)
    &&& info.open_issues == repo.issues_total
    &&& info.open_prs == repo.prs_total
    &&& info.is_private == repo.is_private
    &&& info.issues@.len() == repo.issues@.len()
    &&& (forall|k: int|
        0 <= k < repo.issues@.len() ==> issue_item_spec(
            #[trigger] repo.issues@[k],
            repo.name_with_owner@,
            now,
            info.issues@[k],
        ))
    &&& info.prs@.len() == repo.prs@.len()
    &&& (forall|k: int|
        0 <= k < repo.prs@.len() ==> pr_item_spec(
            #[trigger] repo.prs@[k],
            repo.name_with_owner@,
            now,
            info.prs@[k],
        ))
    &&& carried_checks(
        if i >= 0 {
            Some(history_repos[i])
        } else {
            None
        },
        info,
    )
    &&& i >= 0 ==> (info.local_status == history_repos[i].local_status
        && info.has_local_git == history_repos[i].has_local_git
        && info.staging_files@ == history_repos[i].staging_files@
        && info.local_head_hash@ == history_repos[i].local_head_hash@)
    &&& i < 0 ==> exists|s: &str, st: (LocalStatus, bool, Vec<String>)|
        #![trigger call_ensures(check_local_status, (s,), st)]
        s@ == repo.name@ && call_ensures(check_local_status, (s,), st) && info.local_status
            == st.0 && info.has_local_git == st.1 && info.staging_files == st.2 && if st.1 {
            exists|h: String|
                #![trigger call_ensures(local_head_hash, (s,), h)]
                call_ensures(local_head_hash, (s,), h) && info.local_head_hash == h
        } else {
            info.local_head_hash@.len() == 0
        }
}

/// A listed repository that is kept: not a fork and not archived.
pub open spec fn kept_listing(repo: GqlRepo) -> bool {
    !(repo.is_fork || repo.is_archived)
}

/// The record of a listed repository (see `listed_repo`); forks and
/// archived repositories are left out.
pub fn build_repo_info<C, H>(
    history_repos: &Vec<RepoInfo>,
    repo: &GqlRepo,
    now: (i64, u32),
    check_local_status: &mut C,
    local_head_hash: &mut H,
) -> (r: Option<RepoInfo>) where
    C: FnMut(&str) -> (LocalStatus, bool, Vec<String>),
    H: FnMut(&str) -> String,

    requires
        forall|s: &str| call_requires(*old(check_local_status), (s,)),
        forall|s: &str| call_requires(*old(local_head_hash), (s,)),
    ensures
        *final(check_local_status) == *old(check_local_status),
        *final(local_head_hash) == *old(local_head_hash),
        repo.is_fork ==> r is None,
        repo.is_archived ==> r is None,
        !kept_listing(*repo) ==> r is None,
        kept_listing(*repo) ==> (r matches Some(info) && listed_repo(
            history_repos@,
            *repo,
            now,
            *old(check_local_status),
            *old(local_head_hash),
            info,
        )),
{
    if repo.is_fork || repo.is_archived {
        return None;
    }
    let full_name = repo.name_with_owner.as_str();
    let found = find_first_named(history_repos, repo.name.as_str());
    let name: &str = repo.name.as_str();
    let (local_status, has_local_git, staging_files, local_head) = match found {
        Some(i) => {
            let h = &history_repos[i];
            (h.local_status.duplicate(), h.has_local_git, copy_strings(&h.staging_files), h.local_head_hash.clone())
        },
        None => {
            let (st, git, files) = check_local_status(name);
            let head = if git {
                local_head_hash(name)
            } else {
                String::new()
            };
            (st, git, files, head)
        },
    };
    let mut issues: Vec<IssueOrPr> = Vec::new();
    let mut k: usize = 0;
    while k < repo.issues.len()
        invariant
            k <= repo.issues@.len(),
            issues@.len() == k,
            full_name@ == repo.name_with_owner@,
            forall|j: int|
                0 <= j < k ==> issue_item_spec(
                    #[trigger] repo.issues@[j],
                    repo.name_with_owner@,
                    now,
                    issues@[j],
                ),
        decreases repo.issues@.len() - k,
    {
        issues.push(issue_item(&repo.issues[k], full_name, now));
        k += 1;
    }
    let mut prs: Vec<IssueOrPr> = Vec::new();
    let mut k: usize = 0;
    while k < repo.prs.len()
        invariant
            k <= repo.prs@.len(),
            prs@.len() == k,
            full_name@ == repo.name_with_owner@,
            forall|j: int|
                0 <= j < k ==> pr_item_spec(#[trigger] repo.prs@[j], repo.name_with_owner@, now, prs@[j]),
        decreases repo.prs@.len() - k,
    {
        prs.push(pr_item(&repo.prs[k], full_name, now));
        k += 1;
    }
    let mut info = RepoInfo {
        name: repo.name.clone(),
        full_name: repo.name_with_owner.clone(),
        updated_at: relative_date_at(repo.updated_at.as_str(), now.0, now.1),
        updated_at_raw: format_date_iso(repo.updated_at.as_str()),
        open_issues: repo.issues_total,
        open_prs: repo.prs_total,
        is_private: repo.is_private,
        local_status,
        has_local_git,
        staging_files,
        local_head_hash: local_head,
        issues,
        prs,
        readme_ja: None,
        readme_ja_checked_at: String::new(),
        readme_ja_badge: None,
        readme_ja_badge_checked_at: String::new(),
        pages: None,
        pages_checked_at: String::new(),
        deepwiki: None,
        deepwiki_checked_at: String::new(),
        cargo_install: None,
        cargo_checked_at: String::new(),
        cargo_remote_hash: String::new(),
        cargo_remote_hash_checked_at: String::new(),
        cargo_installed_hash: String::new(),
        cargo_check_failed: false,
        cargo_bin_check: None,
        wf_workflows: None,
        wf_checked_at: String::new(),
    };
    match found {
        Some(i) => {
            let h = &history_repos[i];
            info.readme_ja = h.readme_ja;
            info.readme_ja_checked_at = h.readme_ja_checked_at.clone();
            info.readme_ja_badge = h.readme_ja_badge;
            info.readme_ja_badge_checked_at = h.readme_ja_badge_checked_at.clone();
            info.pages = h.pages;
            info.pages_checked_at = h.pages_checked_at.clone();
            info.deepwiki = h.deepwiki;
            info.deepwiki_checked_at = h.deepwiki_checked_at.clone();
            info.cargo_install = h.cargo_install;
            info.cargo_checked_at = h.cargo_checked_at.clone();
            info.cargo_remote_hash = h.cargo_remote_hash.clone();
            info.cargo_remote_hash_checked_at = h.cargo_remote_hash_checked_at.clone();
            info.cargo_installed_hash = h.cargo_installed_hash.clone();
            info.cargo_check_failed = h.cargo_check_failed;
            info.cargo_bin_check = h.cargo_bin_check;
            info.wf_workflows = h.wf_workflows;
            info.wf_checked_at = h.wf_checked_at.clone();
        },
        None => {},
    }
    Some(info)
}

/// The display group of a repository: public repositories with open pull
/// requests first, then with open issues only, then with neither, then
/// those not cloned locally, and private repositories last.
pub open spec fn group_of_repo(r: RepoInfo) -> int {
    if r.is_private {
        4
    } else if r.local_status == LocalStatus::NotFound {
        3
    } else if r.open_issues == 0 && r.open_prs == 0 {
        2
    } else if r.open_prs == 0 {
        1
    } else {
        0
    }
}

/// The display group of a repository.
pub fn group_key(r: &RepoInfo) -> (g: u8)
    ensures
        g as int == group_of_repo(*r),
{
    if r.is_private {
        return 4;
    }
    match r.local_status {
        LocalStatus::NotFound => {
            return 3;
        },
        _ => {},
    }
    if r.open_issues == 0 && r.open_prs == 0 {
        return 2;
    }
    if r.open_prs == 0 {
        return 1;
    }
    0
}

/// The display keys: group, then most recently pushed first.
pub open spec fn display_keys(repos: Seq<RepoInfo>) -> Seq<(int, Seq<char>, Seq<char>)> {
    Seq::new(
        repos.len(),
        |i: int| (group_of_repo(repos[i]), repos[i].updated_at_raw@, Seq::<char>::empty()),
    )
}

/// `sorted` holds the records of `repos` in display order: by group, then
/// most recently pushed first, records with equal keys in their first
/// order.
pub open spec fn display_order_of(repos: Seq<RepoInfo>, sorted: Seq<RepoInfo>) -> bool {
    exists|perm: Seq<int>|
        #![trigger sorted_stable(display_keys(repos), perm)]
        sorted_stable(display_keys(repos), perm) && sorted.len() == repos.len() && forall|k: int|
            0 <= k < sorted.len() ==> same_repo(#[trigger] sorted[k], repos[perm[k]])
}

/// The repositories in display order: by group, then most recently pushed
/// first (stable).
pub fn sort_repos_for_display(repos: &Vec<RepoInfo>) -> (r: Vec<RepoInfo>)
    ensures
        display_order_of(repos@, r@),
{
    let mut keys: Vec<SortKey> = Vec::new();
    let mut i: usize = 0;
    while i < repos.len()
        invariant
            i <= repos@.len(),
            keys@.len() == i,
            forall|j: int|
                0 <= j < i ==> key_view(#[trigger] keys@[j]) == (
                    group_of_repo(repos@[j]),
                    repos@[j].updated_at_raw@,
                    Seq::<char>::empty(),
                ),
        decreases repos@.len() - i,
    {
        let g = group_key(&repos[i]);
        keys.push(
            SortKey { group: g as i128, text: repos[i].updated_at_raw.clone(), tie: String::new() },
        );
        i += 1;
    }
    assert(key_views(keys@) =~= display_keys(repos@));
    let perm = sort_indices_stable(&keys);
    let ghost pv = perm@.map_values(|i: usize| i as int);
    let mut r: Vec<RepoInfo> = Vec::new();
    let mut k: usize = 0;
    while k < perm.len()
        invariant
            k <= perm@.len(),
            perm@.len() == repos@.len(),
            pv == perm@.map_values(|i: usize| i as int),
            sorted_stable(display_keys(repos@), pv),
            r@.len() == k,
            forall|j: int| 0 <= j < k ==> same_repo(#[trigger] r@[j], repos@[pv[j]]),
        decreases perm@.len() - k,
    {
        assert(pv[k as int] == perm@[k as int] as int);
        r.push(repos[perm[k]].duplicate());
        k += 1;
    }
    r
}

/// Some record of `shown` is a copy of `r`.
pub open spec fn shown_in(shown: Seq<RepoInfo>, r: RepoInfo) -> bool {
    exists|k: int| 0 <= k < shown.len() && same_repo(#[trigger] shown[k], r)
}

/// The display order shows every repository once, in groups (public with
/// open pull requests, with open issues only, with neither, not cloned,
/// private), each group most recently pushed first.
pub proof fn law_display_order_groups_then_newest(repos: Seq<RepoInfo>, sorted: Seq<RepoInfo>)
    requires
        display_order_of(repos, sorted),
    ensures
        sorted.len() == repos.len(),
        forall|i: int, j: int|
            #![trigger sorted[i], sorted[j]]
            0 <= i < j < sorted.len() ==> group_of_repo(sorted[i]) <= group_of_repo(sorted[j]) && (
            group_of_repo(sorted[i]) == group_of_repo(sorted[j]) ==> !crate::order::str_less(
                sorted[i].updated_at_raw@,
                sorted[j].updated_at_raw@,
            )),
        forall|i: int| 0 <= i < repos.len() ==> shown_in(sorted, #[trigger] repos[i]),
{
    let perm = choose|perm: Seq<int>|
        #![trigger sorted_stable(display_keys(repos), perm)]
        sorted_stable(display_keys(repos), perm) && sorted.len() == repos.len() && forall|k: int|
            0 <= k < sorted.len() ==> same_repo(#[trigger] sorted[k], repos[perm[k]]);
    let keys = display_keys(repos);
    assert forall|i: int, j: int|
        #![trigger sorted[i], sorted[j]]
        0 <= i < j < sorted.len() implies group_of_repo(sorted[i]) <= group_of_repo(sorted[j]) && (
        group_of_repo(sorted[i]) == group_of_repo(sorted[j]) ==> !crate::order::str_less(
            sorted[i].updated_at_raw@,
            sorted[j].updated_at_raw@,
        )) by {
        assert(same_repo(sorted[i], repos[perm[i]]));
        assert(same_repo(sorted[j], repos[perm[j]]));
        assert(!precedes(keys[perm[j]], keys[perm[i]]));
    }
    assert forall|i: int| 0 <= i < repos.len() implies shown_in(sorted, #[trigger] repos[i]) by {
        crate::order::lemma_permutation_onto(perm, repos.len() as int, i);
        let k = choose|k: int| 0 <= k < perm.len() && perm[k] == i;
        assert(same_repo(sorted[k], repos[perm[k]]));
    }
}

/// A listed repository is kept exactly when it is neither a fork nor
/// archived: forks and archived repositories never get a record.
pub proof fn law_forks_and_archived_are_left_out(repo: GqlRepo)
    ensures
        repo.is_archived ==> !kept_listing(repo),
        repo.is_fork ==> !kept_listing(repo),
        !repo.is_fork && !repo.is_archived ==> kept_listing(repo),
{
}

/// In the display order every private repository comes after every public
/// one; among public ones, cloned repositories come before those not
/// cloned; among public cloned ones, those with open pull requests come
/// first, then those with open issues only, then those with neither.
pub proof fn law_display_order_private_last(repos: Seq<RepoInfo>, sorted: Seq<RepoInfo>)
    requires
        display_order_of(repos, sorted),
    ensures
        forall|i: int, j: int|
            #![trigger sorted[i], sorted[j]]
            0 <= i < j < sorted.len() && sorted[i].is_private ==> sorted[j].is_private,
        forall|i: int, j: int|
            #![trigger sorted[i], sorted[j]]
            0 <= i < j < sorted.len() && !sorted[j].is_private && sorted[i].local_status
                == LocalStatus::NotFound ==> sorted[j].local_status == LocalStatus::NotFound,
        forall|i: int, j: int|
            #![trigger sorted[i], sorted[j]]
            0 <= i < j < sorted.len() && !sorted[j].is_private && sorted[j].local_status
                != LocalStatus::NotFound && sorted[j].open_prs > 0 ==> sorted[i].open_prs > 0
                && !sorted[i].is_private && sorted[i].local_status != LocalStatus::NotFound,
        forall|i: int, j: int|
            #![trigger sorted[i], sorted[j]]
            0 <= i < j < sorted.len() && !sorted[j].is_private && sorted[j].local_status
                != LocalStatus::NotFound && sorted[j].open_issues > 0 ==> !sorted[i].is_private
                && sorted[i].local_status != LocalStatus::NotFound && (sorted[i].open_issues > 0
                || sorted[i].open_prs > 0),
{
    law_display_order_groups_then_newest(repos, sorted);
    assert forall|i: int, j: int|
        #![trigger sorted[i], sorted[j]]
        0 <= i < j < sorted.len() implies group_of_repo(sorted[i]) <= group_of_repo(sorted[j]) by {}
}

} // verus!
