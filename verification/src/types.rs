//! Data model of repositories, issues and pull requests.
use vstd::prelude::*;

use crate::text::{push_char, push_str};

verus! {

/// Decimal digits of a natural number, most significant first.
pub open spec fn decimal(n: nat) -> Seq<char>
    decreases n,
{
    if n < 10 {
        seq![digit_char(n)]
    } else {
        decimal(n / 10).push(digit_char(n % 10))
    }
}

pub open spec fn digit_char(d: nat) -> char {
    ((d + 48) as u32) as char
}

/// Appends the decimal form of `n`.
pub fn push_decimal(s: &mut String, n: u64)
    ensures
        final(s)@ == old(s)@ + decimal(n as nat),
    decreases n,
{
    if n >= 10 {
        push_decimal(s, n / 10);
    }
    let d: u8 = (n % 10) as u8;
    let c: char = (d + 48) as char;
    push_char(s, c);
    proof {
        assert(c == digit_char((n % 10) as nat));
        if n >= 10 {
            assert(decimal(n as nat) == decimal((n / 10) as nat).push(c));
        } else {
            assert(decimal(n as nat) =~= seq![c]);
        }
    }
}

/// The decimal form of `n`, as `u64::to_string`.
pub fn decimal_string(n: u64) -> (r: String)
    ensures
        r@ == decimal(n as nat),
{
    let mut s = String::new();
    push_decimal(&mut s, n);
    assert(s@ =~= decimal(n as nat));
    s
}

/// An open issue or pull request of a repository.
#[derive(Debug, Clone)]
pub struct IssueOrPr {
    pub title: String,
    pub updated_at: String,
    pub updated_at_raw: String,
    pub number: u64,
    pub repo_full: String,
    pub is_pr: bool,
    pub closes_issue: Option<u64>,
}

/// The web address of an issue or pull request.
pub open spec fn issue_url(repo_full: Seq<char>, is_pr: bool, number: u64) -> Seq<char> {
    "https://github.com/"@ + repo_full + "/"@ + (if is_pr {
        "pull"@
    } else {
        "issues"@
    }) + "/"@ + decimal(number as nat)
}

impl IssueOrPr {
    /// `https://github.com/<repo_full>/(pull|issues)/<number>`.
    pub fn url(&self) -> (r: String)
        ensures
            r@ == issue_url(self.repo_full@, self.is_pr, self.number),
    {
        let mut s = String::new();
        push_str(&mut s, "https://github.com/");
        push_str(&mut s, self.repo_full.as_str());
        push_str(&mut s, "/");
        if self.is_pr {
            push_str(&mut s, "pull");
        } else {
            push_str(&mut s, "issues");
        }
        push_str(&mut s, "/");
        push_decimal(&mut s, self.number);
        assert(s@ =~= issue_url(self.repo_full@, self.is_pr, self.number));
        s
    }

    /// A copy of this item.
    pub fn duplicate(&self) -> (r: Self)
        ensures
            r == *self,
    {
        IssueOrPr {
            title: self.title.clone(),
            updated_at: self.updated_at.clone(),
            updated_at_raw: self.updated_at_raw.clone(),
            number: self.number,
            repo_full: self.repo_full.clone(),
            is_pr: self.is_pr,
            closes_issue: self.closes_issue,
        }
    }
}

impl Default for IssueOrPr {
    fn default() -> (r: Self)
        ensures
            r.title@ == Seq::<char>::empty(),
            r.updated_at@ == Seq::<char>::empty(),
            r.updated_at_raw@ == Seq::<char>::empty(),
            r.number == 0,
            r.repo_full@ == Seq::<char>::empty(),
            !r.is_pr,
            r.closes_issue is None,
    {
        IssueOrPr {
            title: String::new(),
            updated_at: String::new(),
            updated_at_raw: String::new(),
            number: 0,
            repo_full: String::new(),
            is_pr: false,
            closes_issue: None,
        }
    }
}

/// State of the local clone of a repository.
#[derive(Debug, Clone, Copy, PartialEq, Eq, Structural)]
pub enum LocalStatus {
    Conflict,
    Modified,
    Pullable,
    Clean,
    Staging,
    Other,
    NotFound,
    NoGit,
}

/// The label shown for a local status.
pub open spec fn local_status_label(s: LocalStatus) -> Seq<char> {
    match s {
        LocalStatus::Conflict => "conflict"@,
        LocalStatus::Modified => "modified"@,
        LocalStatus::Pullable => "pullable"@,
        LocalStatus::Clean => "clean"@,
        LocalStatus::Staging => "staging"@,
        LocalStatus::Other => "other"@,
        LocalStatus::NotFound => "-"@,
        LocalStatus::NoGit => "no-git"@,
    }
}

impl LocalStatus {
    /// The label shown for this status.
    pub fn to_string(&self) -> (r: String)
        ensures
            r@ == local_status_label(*self),
    {
        let mut s = String::new();
        match self {
            LocalStatus::Conflict => push_str(&mut s, "conflict"),
            LocalStatus::Modified => push_str(&mut s, "modified"),
            LocalStatus::Pullable => push_str(&mut s, "pullable"),
            LocalStatus::Clean => push_str(&mut s, "clean"),
            LocalStatus::Staging => push_str(&mut s, "staging"),
            LocalStatus::Other => push_str(&mut s, "other"),
            LocalStatus::NotFound => push_str(&mut s, "-"),
            LocalStatus::NoGit => push_str(&mut s, "no-git"),
        }
        assert(s@ =~= local_status_label(*self));
        s
    }

    /// A copy of this status.
    pub fn duplicate(&self) -> (r: Self)
        ensures
            r == *self,
    {
        match self {
            LocalStatus::Conflict => LocalStatus::Conflict,
            LocalStatus::Modified => LocalStatus::Modified,
            LocalStatus::Pullable => LocalStatus::Pullable,
            LocalStatus::Clean => LocalStatus::Clean,
            LocalStatus::Staging => LocalStatus::Staging,
            LocalStatus::Other => LocalStatus::Other,
            LocalStatus::NotFound => LocalStatus::NotFound,
            LocalStatus::NoGit => LocalStatus::NoGit,
        }
    }
}

/// GitHub API rate limit.
#[derive(Debug, Clone)]
pub struct RateLimit {
    pub remaining: u64,
    pub limit: u64,
    pub reset_at: String,
}

impl RateLimit {
    /// A copy of this rate limit.
    pub fn duplicate(&self) -> (r: Self)
        ensures
            r == *self,
    {
        RateLimit { remaining: self.remaining, limit: self.limit, reset_at: self.reset_at.clone() }
    }
}

/// A request to launch an application update after a confirmed stale install.
#[derive(Debug, Clone, PartialEq, Eq)]
pub struct AutoUpdateLaunchRequest {
    pub name: String,
    pub full_name: String,
    pub cargo_install: Option<bool>,
    pub installed_hash: String,
    pub remote_hash: String,
}

/// Everything known of one repository.
#[derive(Debug, Clone)]
pub struct RepoInfo {
    pub name: String,
    pub full_name: String,
    pub updated_at: String,
    pub updated_at_raw: String,
    pub open_issues: u64,
    pub open_prs: u64,
    pub is_private: bool,
    pub local_status: LocalStatus,
    pub has_local_git: bool,
    pub staging_files: Vec<String>,
    pub local_head_hash: String,
    pub issues: Vec<IssueOrPr>,
    pub prs: Vec<IssueOrPr>,
    /// README.ja.md existence; `None` = unchecked.
    pub readme_ja: Option<bool>,
    pub readme_ja_checked_at: String,
    pub readme_ja_badge: Option<bool>,
    pub readme_ja_badge_checked_at: String,
    pub pages: Option<bool>,
    pub pages_checked_at: String,
    pub deepwiki: Option<bool>,
    pub deepwiki_checked_at: String,
    /// `None` = not installed with `cargo install --git`; `Some(ok)` otherwise.
    pub cargo_install: Option<bool>,
    pub cargo_checked_at: String,
    pub cargo_remote_hash: String,
    pub cargo_remote_hash_checked_at: String,
    pub cargo_installed_hash: String,
    /// The last cargo check could not decide.
    pub cargo_check_failed: bool,
    /// Verdict of the installed binary's own `check` report.
    pub cargo_bin_check: Option<bool>,
    pub wf_workflows: Option<bool>,
    pub wf_checked_at: String,
}

/// A copy of a list of strings.
pub fn copy_strings(v: &Vec<String>) -> (r: Vec<String>)
    ensures
        r@ == v@,
{
    let mut r: Vec<String> = Vec::new();
    let mut i: usize = 0;
    while i < v.len()
        invariant
            i <= v.len(),
            r@ == v@.take(i as int),
        decreases v.len() - i,
    {
        r.push(v[i].clone());
        i += 1;
        assert(r@ =~= v@.take(i as int));
    }
    assert(v@.take(v.len() as int) =~= v@);
    r
}

/// A copy of a list of issues or pull requests.
pub fn copy_items(v: &Vec<IssueOrPr>) -> (r: Vec<IssueOrPr>)
    ensures
        r@ == v@,
{
    let mut r: Vec<IssueOrPr> = Vec::new();
    let mut i: usize = 0;
    while i < v.len()
        invariant
            i <= v.len(),
            r@ == v@.take(i as int),
        decreases v.len() - i,
    {
        r.push(v[i].duplicate());
        i += 1;
        assert(r@ =~= v@.take(i as int));
    }
    assert(v@.take(v.len() as int) =~= v@);
    r
}

/// Two repository records hold the same values.
pub open spec fn same_repo(a: RepoInfo, b: RepoInfo) -> bool {
    &&& a.name == b.name
    &&& a.full_name == b.full_name
    &&& a.updated_at == b.updated_at
    &&& a.updated_at_raw == b.updated_at_raw
    &&& a.open_issues == b.open_issues
    &&& a.open_prs == b.open_prs
    &&& a.is_private == b.is_private
    &&& a.local_status == b.local_status
    &&& a.has_local_git == b.has_local_git
    &&& a.staging_files@ == b.staging_files@
    &&& a.local_head_hash == b.local_head_hash
    &&& a.issues@ == b.issues@
    &&& a.prs@ == b.prs@
    &&& a.readme_ja == b.readme_ja
    &&& a.readme_ja_checked_at == b.readme_ja_checked_at
    &&& a.readme_ja_badge == b.readme_ja_badge
    &&& a.readme_ja_badge_checked_at == b.readme_ja_badge_checked_at
    &&& a.pages == b.pages
    &&& a.pages_checked_at == b.pages_checked_at
    &&& a.deepwiki == b.deepwiki
    &&& a.deepwiki_checked_at == b.deepwiki_checked_at
    &&& a.cargo_install == b.cargo_install
    &&& a.cargo_checked_at == b.cargo_checked_at
    &&& a.cargo_remote_hash == b.cargo_remote_hash
    &&& a.cargo_remote_hash_checked_at == b.cargo_remote_hash_checked_at
    &&& a.cargo_installed_hash == b.cargo_installed_hash
    &&& a.cargo_check_failed == b.cargo_check_failed
    &&& a.cargo_bin_check == b.cargo_bin_check
    &&& a.wf_workflows == b.wf_workflows
    &&& a.wf_checked_at == b.wf_checked_at
}

/// Two lists of repository records hold the same values, in order.
pub open spec fn same_repos(a: Seq<RepoInfo>, b: Seq<RepoInfo>) -> bool {
    a.len() == b.len() && forall|i: int| 0 <= i < a.len() ==> same_repo(#[trigger] a[i], b[i])
}

impl RepoInfo {
    /// A copy of this repository record.
    pub fn duplicate(&self) -> (r: Self)
        ensures
            same_repo(r, *self),
    {
        RepoInfo {
            name: self.name.clone(),
            full_name: self.full_name.clone(),
            updated_at: self.updated_at.clone(),
            updated_at_raw: self.updated_at_raw.clone(),
            open_issues: self.open_issues,
            open_prs: self.open_prs,
            is_private: self.is_private,
            local_status: self.local_status.duplicate(),
            has_local_git: self.has_local_git,
            staging_files: copy_strings(&self.staging_files),
            local_head_hash: self.local_head_hash.clone(),
            issues: copy_items(&self.issues),
            prs: copy_items(&self.prs),
            readme_ja: self.readme_ja,
            readme_ja_checked_at: self.readme_ja_checked_at.clone(),
            readme_ja_badge: self.readme_ja_badge,
            readme_ja_badge_checked_at: self.readme_ja_badge_checked_at.clone(),
            pages: self.pages,
            pages_checked_at: self.pages_checked_at.clone(),
            deepwiki: self.deepwiki,
            deepwiki_checked_at: self.deepwiki_checked_at.clone(),
            cargo_install: self.cargo_install,
            cargo_checked_at: self.cargo_checked_at.clone(),
            cargo_remote_hash: self.cargo_remote_hash.clone(),
            cargo_remote_hash_checked_at: self.cargo_remote_hash_checked_at.clone(),
            cargo_installed_hash: self.cargo_installed_hash.clone(),
            cargo_check_failed: self.cargo_check_failed,
            cargo_bin_check: self.cargo_bin_check,
            wf_workflows: self.wf_workflows,
            wf_checked_at: self.wf_checked_at.clone(),
        }
    }
}

/// A copy of a list of repositories.
pub fn copy_repos(v: &[RepoInfo]) -> (r: Vec<RepoInfo>)
    ensures
        same_repos(r@, v@),
{
    let mut r: Vec<RepoInfo> = Vec::new();
    let mut i: usize = 0;
    while i < v.len()
        invariant
            i <= v.len(),
            same_repos(r@, v@.take(i as int)),
        decreases v.len() - i,
    {
        r.push(v[i].duplicate());
        i += 1;
    }
    assert(v@.take(v.len() as int) =~= v@);
    r
}

/// The local upstream relation of a clone.
#[derive(Debug, Clone, Copy, PartialEq, Eq, Structural)]
pub enum GitTrackingStatus {
    Unknown,
    NoUpstream,
    Synced,
    Ahead { commits: u64 },
    Behind { commits: u64 },
    Diverged { ahead: u64, behind: u64 },
}

} // verus!
