//! The rows of the repository list and the items of the detail pane.
use vstd::prelude::*;

use crate::types::{issue_url, IssueOrPr, LocalStatus, RepoInfo};

verus! {

/// One line of the repository list.
#[derive(Debug, PartialEq, Eq, Structural, Clone, Copy)]
pub enum RepoRow {
    /// The repository at this index of `App::repos`.
    Repo(usize),
    /// A separator that opens the group with this key.
    Separator(u8),
}

/// Which pane has the keyboard.
#[derive(Debug, PartialEq, Eq, Structural, Clone, Copy)]
pub enum Focus {
    Repos,
    Detail,
}

/// Whether the incremental search prompt is open.
#[derive(Debug, PartialEq, Eq, Structural, Clone, Copy)]
pub enum SearchState {
    Off,
    Active,
}

pub open spec fn is_repo_row(r: RepoRow) -> bool {
    r is Repo
}

/// The group a repository is listed in: active pull requests first, then
/// open issues, then quiet repositories, then repositories without a local
/// clone, then private ones.
pub open spec fn group_of(r: RepoInfo) -> u8 {
    if r.is_private {
        4
    } else if r.local_status == LocalStatus::NotFound {
        3
    } else if r.open_issues == 0 && r.open_prs == 0 {
        2
    } else if r.open_prs == 0 {
        1
    } else {
        0
    }
}

pub fn group_key(r: &RepoInfo) -> (k: u8)
    ensures
        k == group_of(*r),
{
    if r.is_private {
        return 4;
    }
    if r.local_status == LocalStatus::NotFound {
        return 3;
    }
    if r.open_issues == 0 && r.open_prs == 0 {
        return 2;
    }
    if r.open_prs == 0 {
        return 1;
    }
    0
}

/// The list rows for `repos`: one row per repository, in order, with a
/// separator wherever the group changes.
pub open spec fn rows_for(repos: Seq<RepoInfo>) -> Seq<RepoRow>
    decreases repos.len(),
{
    if repos.len() == 0 {
        seq![]
    } else {
        let i = repos.len() - 1;
        let prev = rows_for(repos.drop_last());
        if i > 0 && group_of(repos[i]) != group_of(repos[i - 1]) {
            prev.push(RepoRow::Separator(group_of(repos[i]))).push(RepoRow::Repo(i as usize))
        } else {
            prev.push(RepoRow::Repo(i as usize))
        }
    }
}

/// Every repository row of `rows` points into a list of `n` repositories.
pub open spec fn rows_valid(rows: Seq<RepoRow>, n: nat) -> bool {
    forall|k: int|
        0 <= k < rows.len() ==> (#[trigger] rows[k] matches RepoRow::Repo(idx) ==> idx < n)
}

/// Rows built for a list point into it.
pub proof fn lemma_rows_for_valid(repos: Seq<RepoInfo>)
    requires
        repos.len() <= usize::MAX,
    ensures
        rows_valid(rows_for(repos), repos.len()),
    decreases repos.len(),
{
    if repos.len() > 0 {
        lemma_rows_for_valid(repos.drop_last());
    }
}

/// Rows built for a list hold exactly one row for each repository, in order.
pub proof fn lemma_rows_for_lists_each_repo_once(repos: Seq<RepoInfo>, idx: int)
    requires
        repos.len() <= usize::MAX,
        0 <= idx < repos.len(),
    ensures
        exists|k: int| 0 <= k < rows_for(repos).len() && rows_for(repos)[k] == RepoRow::Repo(idx as usize),
        forall|k1: int, k2: int|
            0 <= k1 < rows_for(repos).len() && 0 <= k2 < rows_for(repos).len()
                && rows_for(repos)[k1] == RepoRow::Repo(idx as usize) && rows_for(repos)[k2]
                == RepoRow::Repo(idx as usize) ==> k1 == k2,
    decreases repos.len(),
{
    let rows = rows_for(repos);
    let i = repos.len() - 1;
    let prev = rows_for(repos.drop_last());
    lemma_rows_for_valid(repos.drop_last());
    if idx < i {
        lemma_rows_for_lists_each_repo_once(repos.drop_last(), idx);
        let k = choose|k: int| 0 <= k < prev.len() && prev[k] == RepoRow::Repo(idx as usize);
        assert(rows[k] == prev[k]);
        assert forall|k1: int, k2: int|
            0 <= k1 < rows.len() && 0 <= k2 < rows.len() && rows[k1] == RepoRow::Repo(
                idx as usize,
            ) && rows[k2] == RepoRow::Repo(idx as usize) implies k1 == k2 by {
            if k1 >= prev.len() || k2 >= prev.len() {
                assert(false);
            } else {
                assert(rows[k1] == prev[k1]);
                assert(rows[k2] == prev[k2]);
            }
        }
    } else {
        assert(rows[rows.len() - 1] == RepoRow::Repo(idx as usize));
        assert forall|k1: int, k2: int|
            0 <= k1 < rows.len() && 0 <= k2 < rows.len() && rows[k1] == RepoRow::Repo(
                idx as usize,
            ) && rows[k2] == RepoRow::Repo(idx as usize) implies k1 == k2 by {
            if k1 < prev.len() {
                assert(rows[k1] == prev[k1]);
                assert(prev[k1] matches RepoRow::Repo(j) && j < i);
            }
            if k2 < prev.len() {
                assert(rows[k2] == prev[k2]);
                assert(prev[k2] matches RepoRow::Repo(j) && j < i);
            }
        }
    }
}

/// `build_rows`: the list rows for `repos`.
pub fn build_rows(repos: &[RepoInfo]) -> (rows: Vec<RepoRow>)
    ensures
        rows@ == rows_for(repos@),
        rows_valid(rows@, repos@.len()),
{
    let mut rows: Vec<RepoRow> = Vec::new();
    let mut i: usize = 0;
    while i < repos.len()
        invariant
            i <= repos.len(),
            rows@ == rows_for(repos@.take(i as int)),
        decreases repos.len() - i,
    {
        let ghost prefix = repos@.take(i + 1);
        assert(prefix.drop_last() =~= repos@.take(i as int));
        if i > 0 && group_key(&repos[i]) != group_key(&repos[i - 1]) {
            rows.push(RepoRow::Separator(group_key(&repos[i])));
        }
        rows.push(RepoRow::Repo(i));
        i += 1;
    }
    assert(repos@.take(repos.len() as int) =~= repos@);
    proof {
        lemma_rows_for_valid(repos@);
    }
    rows
}

/// One selectable line of the detail pane.
pub struct DetailItem {
    pub url: String,
    pub is_pr: bool,
}

/// Number of detail items of a repository: its issues, then its pull requests.
pub open spec fn detail_count(r: RepoInfo) -> nat {
    r.issues@.len() + r.prs@.len()
}

/// The `k`-th issue or pull request shown for a repository.
pub open spec fn detail_entry(r: RepoInfo, k: int) -> IssueOrPr {
    if k < r.issues@.len() {
        r.issues@[k]
    } else {
        r.prs@[k - r.issues@.len()]
    }
}

/// The address of the `k`-th detail item.
pub open spec fn detail_url(r: RepoInfo, k: int) -> Seq<char> {
    let e = detail_entry(r, k);
    issue_url(e.repo_full@, e.is_pr, e.number)
}

/// `build_detail_items`: the issues of a repository, then its pull requests.
pub fn build_detail_items(r: &RepoInfo) -> (items: Vec<DetailItem>)
    ensures
        items@.len() == detail_count(*r),
        forall|k: int|
            0 <= k < items@.len() ==> (#[trigger] items@[k]).url@ == detail_url(*r, k)
                && items@[k].is_pr == detail_entry(*r, k).is_pr,
{
    let mut items: Vec<DetailItem> = Vec::new();
    let mut i: usize = 0;
    while i < r.issues.len()
        invariant
            i <= r.issues@.len(),
            items@.len() == i,
            forall|k: int|
                0 <= k < i ==> (#[trigger] items@[k]).url@ == detail_url(*r, k)
                    && items@[k].is_pr == detail_entry(*r, k).is_pr,
        decreases r.issues@.len() - i,
    {
        let e = &r.issues[i];
        items.push(DetailItem { url: e.url(), is_pr: e.is_pr });
        i += 1;
    }
    let mut j: usize = 0;
    while j < r.prs.len()
        invariant
            j <= r.prs@.len(),
            items@.len() == r.issues@.len() + j,
            forall|k: int|
                0 <= k < items@.len() ==> (#[trigger] items@[k]).url@ == detail_url(*r, k)
                    && items@[k].is_pr == detail_entry(*r, k).is_pr,
        decreases r.prs@.len() - j,
    {
        let e = &r.prs[j];
        items.push(DetailItem { url: e.url(), is_pr: e.is_pr });
        j += 1;
    }
    items
}

} // verus!
