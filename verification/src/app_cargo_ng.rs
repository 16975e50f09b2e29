//! The overlay that lists repositories whose installed binary is stale.
//!
//! A stale install shown only as a short column is easy to miss, so the list
//! opens once by itself when a fetch finishes; after it is closed it does not
//! open by itself again until the next fetch.
use vstd::prelude::*;

use crate::app::{adjusted_scroll, min_usize, scroll_for, App};
use crate::rows::RepoRow;
use crate::text::str_eq;
use crate::types::RepoInfo;

verus! {

/// One line of the overlay.
#[derive(Debug, Clone, PartialEq, Eq)]
pub struct CargoNgItem {
    pub name: String,
    pub full_name: String,
    /// The commit hash the installed binary reported for itself.
    pub installed_hash: String,
    pub remote_hash: String,
}

/// The overlay line for a repository.
pub open spec fn ng_item_of(r: RepoInfo) -> (Seq<char>, Seq<char>, Seq<char>, Seq<char>) {
    (r.name@, r.full_name@, r.cargo_installed_hash@, r.cargo_remote_hash@)
}

/// The values held by overlay lines.
pub open spec fn ng_item_values(items: Seq<CargoNgItem>) -> Seq<
    (Seq<char>, Seq<char>, Seq<char>, Seq<char>),
> {
    items.map_values(
        |i: CargoNgItem| (i.name@, i.full_name@, i.installed_hash@, i.remote_hash@),
    )
}

/// The repositories whose binary reported itself stale, in list order.
pub open spec fn ng_items(repos: Seq<RepoInfo>) -> Seq<(Seq<char>, Seq<char>, Seq<char>, Seq<char>)>
    decreases repos.len(),
{
    if repos.len() == 0 {
        seq![]
    } else {
        let prev = ng_items(repos.drop_last());
        if repos.last().cargo_bin_check == Some(false) {
            prev.push(ng_item_of(repos.last()))
        } else {
            prev
        }
    }
}

/// The overlay lines for `repos`: those whose binary reported itself stale.
pub fn collect_cargo_ng_items(repos: &[RepoInfo]) -> (r: Vec<CargoNgItem>)
    ensures
        ng_item_values(r@) == ng_items(repos@),
{
    let mut r: Vec<CargoNgItem> = Vec::new();
    let mut i: usize = 0;
    while i < repos.len()
        invariant
            i <= repos@.len(),
            ng_item_values(r@) == ng_items(repos@.take(i as int)),
        decreases repos@.len() - i,
    {
        assert(repos@.take(i + 1).drop_last() =~= repos@.take(i as int));
        let repo = &repos[i];
        if repo.cargo_bin_check == Some(false) {
            let ghost before = r@;
            r.push(
                CargoNgItem {
                    name: repo.name.clone(),
                    full_name: repo.full_name.clone(),
                    installed_hash: repo.cargo_installed_hash.clone(),
                    remote_hash: repo.cargo_remote_hash.clone(),
                },
            );
            assert(ng_item_values(r@) =~= ng_item_values(before).push(ng_item_of(*repo)));
        }
        i += 1;
    }
    assert(repos@.take(repos@.len() as int) =~= repos@);
    r
}

/// The first row showing the repository called `name`, or `rows.len()`.
pub open spec fn row_of_name(rows: Seq<RepoRow>, repos: Seq<RepoInfo>, name: Seq<char>) -> int
    decreases rows.len(),
{
    if rows.len() == 0 {
        0
    } else if (rows[0] matches RepoRow::Repo(idx) && idx < repos.len() && repos[idx as int].name@
        == name) {
        0
    } else {
        1 + row_of_name(rows.drop_first(), repos, name)
    }
}

pub proof fn lemma_row_of_name_at(
    rows: Seq<RepoRow>,
    repos: Seq<RepoInfo>,
    name: Seq<char>,
    n: int,
)
    requires
        0 <= n <= rows.len(),
        n < rows.len() ==> (rows[n] matches RepoRow::Repo(idx) && idx < repos.len()
            && repos[idx as int].name@ == name),
        forall|k: int|
            0 <= k < n ==> !(#[trigger] rows[k] matches RepoRow::Repo(idx) && idx < repos.len()
                && repos[idx as int].name@ == name),
    ensures
        row_of_name(rows, repos, name) == n,
    decreases n,
{
    if n > 0 {
        assert(!(rows[0] matches RepoRow::Repo(idx) && idx < repos.len() && repos[idx as int].name@
            == name));
        assert forall|k: int| 0 <= k < n - 1 implies !(#[trigger] rows.drop_first()[k] matches RepoRow::Repo(
            idx,
        ) && idx < repos.len() && repos[idx as int].name@ == name) by {
            assert(rows.drop_first()[k] == rows[k + 1]);
        }
        lemma_row_of_name_at(rows.drop_first(), repos, name, n - 1);
    }
}

/// `b` is `a` after the overlay was asked to open by itself (`opened`
/// tells whether it did): it opens once per fetch, when some repository is
/// stale and neither it was shown already nor another overlay is open.
pub open spec fn cargo_ng_auto_open(a: App, b: App, opened: bool) -> bool {
    &&& opened == (!a.cargo_ng_auto_shown && !a.show_workflow_repo_exist && !a.show_help
        && ng_items(a.repos@).len() > 0)
    &&& opened ==> ng_item_values(b.cargo_ng_items@) == ng_items(a.repos@) && b == (App {
        show_cargo_ng: true,
        cargo_ng_items: b.cargo_ng_items,
        cargo_ng_selected: 0,
        cargo_ng_scroll: 0,
        cargo_ng_auto_shown: true,
        ..a
    })
    &&& !opened ==> b == a
}

/// `b` is `a` with the overlay allowed to open by itself again.
pub open spec fn cargo_ng_auto_reset(a: App, b: App) -> bool {
    b == (App { cargo_ng_auto_shown: false, ..a })
}

/// The overlay opens by itself at most once: asked again, it does nothing.
pub proof fn law_cargo_ng_auto_opens_once(a0: App, a1: App, a2: App, o1: bool, o2: bool)
    requires
        cargo_ng_auto_open(a0, a1, o1),
        cargo_ng_auto_open(a1, a2, o2),
        o1,
    ensures
        !o2,
        a2 == a1,
{
}

/// After a reset the overlay opens by itself again for the same stale
/// repositories.
pub proof fn law_cargo_ng_reopens_after_reset(
    a0: App,
    a1: App,
    a2: App,
    a3: App,
    o1: bool,
    o3: bool,
)
    requires
        cargo_ng_auto_open(a0, a1, o1),
        o1,
        cargo_ng_auto_reset(a1, a2),
        cargo_ng_auto_open(a2, a3, o3),
    ensures
        o3,
        ng_item_values(a3.cargo_ng_items@) == ng_item_values(a1.cargo_ng_items@),
{
}

impl App {
    /// Opens the overlay with `items`, selecting the first one.
    pub fn open_cargo_ng(&mut self, items: Vec<CargoNgItem>)
        ensures
            *final(self) == (App {
                show_cargo_ng: true,
                cargo_ng_items: items,
                cargo_ng_selected: 0,
                cargo_ng_scroll: 0,
                ..*old(self)
            }),
    {
        self.show_cargo_ng = true;
        self.cargo_ng_items = items;
        self.cargo_ng_selected = 0;
        self.cargo_ng_scroll = 0;
    }

    /// Closes the overlay.
    pub fn close_cargo_ng(&mut self)
        ensures
            *final(self) == (App { show_cargo_ng: false, ..*old(self) }),
    {
        self.show_cargo_ng = false;
    }

    /// Opens the overlay with the stale repositories of the current list.
    pub fn open_cargo_ng_from_repos(&mut self)
        ensures
            ng_item_values(final(self).cargo_ng_items@) == ng_items(old(self).repos@),
            *final(self) == (App {
                show_cargo_ng: true,
                cargo_ng_items: final(self).cargo_ng_items,
                cargo_ng_selected: 0,
                cargo_ng_scroll: 0,
                ..*old(self)
            }),
    {
        let items = collect_cargo_ng_items(self.repos.as_slice());
        self.open_cargo_ng(items);
    }

    /// Opens the overlay by itself once per fetch, when some repository is
    /// stale and neither it was shown already nor another overlay is open.
    /// Returns whether it opened.
    pub fn auto_open_cargo_ng_once(&mut self) -> (opened: bool)
        ensures
            cargo_ng_auto_open(*old(self), *final(self), opened),
    {
        if self.cargo_ng_auto_shown || self.show_workflow_repo_exist || self.show_help {
            return false;
        }
        let items = collect_cargo_ng_items(self.repos.as_slice());
        if items.len() == 0 {
            return false;
        }
        self.cargo_ng_auto_shown = true;
        self.open_cargo_ng(items);
        true
    }

    /// Lets the overlay open by itself again after the next fetch.
    pub fn reset_cargo_ng_auto_shown(&mut self)
        ensures
            cargo_ng_auto_reset(*old(self), *final(self)),
    {
        self.cargo_ng_auto_shown = false;
    }

    /// The selected overlay line.
    pub fn selected_cargo_ng(&self) -> (r: Option<&CargoNgItem>)
        ensures
            self.cargo_ng_selected < self.cargo_ng_items@.len() ==> r == Some(
                &self.cargo_ng_items@[self.cargo_ng_selected as int],
            ),
            self.cargo_ng_selected >= self.cargo_ng_items@.len() ==> r is None,
    {
        if self.cargo_ng_selected < self.cargo_ng_items.len() {
            Some(&self.cargo_ng_items[self.cargo_ng_selected])
        } else {
            None
        }
    }

    /// Moves the overlay selection down by `n`, stopping at the last line.
    pub fn cargo_ng_move_down(&mut self, n: usize)
        requires
            old(self).cargo_ng_selected + n <= usize::MAX,
        ensures
            *final(self) == (App {
                cargo_ng_selected: min_usize(
                    old(self).cargo_ng_selected + n,
                    if old(self).cargo_ng_items@.len() == 0 {
                        0
                    } else {
                        old(self).cargo_ng_items@.len() - 1
                    },
                ) as usize,
                ..*old(self)
            }),
    {
        let max = self.cargo_ng_items.len().saturating_sub(1);
        let target = self.cargo_ng_selected + n;
        self.cargo_ng_selected = if target <= max {
            target
        } else {
            max
        };
    }

    /// Moves the overlay selection up by `n`, stopping at the first line.
    pub fn cargo_ng_move_up(&mut self, n: usize)
        ensures
            *final(self) == (App {
                cargo_ng_selected: if old(self).cargo_ng_selected >= n {
                    (old(self).cargo_ng_selected - n) as usize
                } else {
                    0
                },
                ..*old(self)
            }),
    {
        self.cargo_ng_selected = self.cargo_ng_selected.saturating_sub(n);
    }

    /// Scrolls the overlay so that the selection is visible.
    pub fn adjust_cargo_ng_scroll(&mut self, visible: usize)
        requires
            visible == 0 || old(self).cargo_ng_selected < old(self).cargo_ng_scroll || old(
                self,
            ).cargo_ng_scroll + visible <= usize::MAX,
        ensures
            *final(self) == (App {
                cargo_ng_scroll: scroll_for(
                    old(self).cargo_ng_selected as int,
                    old(self).cargo_ng_scroll as int,
                    visible as int,
                ) as usize,
                ..*old(self)
            }),
    {
        self.cargo_ng_scroll = adjusted_scroll(self.cargo_ng_selected, self.cargo_ng_scroll, visible);
    }

    /// Moves the cursor to the repository of the selected overlay line and
    /// closes the overlay.  When that repository is not listed (a filter
    /// hides it) the cursor stays.
    pub fn jump_to_selected_cargo_ng(&mut self)
        ensures
            old(self).cargo_ng_selected >= old(self).cargo_ng_items@.len() ==> *final(self) == *old(
                self,
            ),
            old(self).cargo_ng_selected < old(self).cargo_ng_items@.len() ==> ({
                let name = old(self).cargo_ng_items@[old(self).cargo_ng_selected as int].name@;
                let pos = row_of_name(old(self).filtered_rows@, old(self).repos@, name);
                if pos < old(self).filtered_rows@.len() {
                    *final(self) == (App {
                        row_cursor: pos as usize,
                        detail_selected: 0,
                        detail_scroll: 0,
                        show_cargo_ng: false,
                        ..*old(self)
                    })
                } else {
                    *final(self) == (App { show_cargo_ng: false, ..*old(self) })
                }
            }),
    {
        if self.cargo_ng_selected >= self.cargo_ng_items.len() {
            return;
        }
        let name = self.cargo_ng_items[self.cargo_ng_selected].name.clone();
        let mut i: usize = 0;
        while i < self.filtered_rows.len()
            invariant
                i <= self.filtered_rows@.len(),
                self.cargo_ng_selected < self.cargo_ng_items@.len(),
                name@ == self.cargo_ng_items@[self.cargo_ng_selected as int].name@,
                *self == *old(self),
                forall|k: int|
                    0 <= k < i ==> !(#[trigger] self.filtered_rows@[k] matches RepoRow::Repo(idx)
                        && idx < self.repos@.len() && self.repos@[idx as int].name@ == name@),
            decreases self.filtered_rows@.len() - i,
        {
            let hit = match self.filtered_rows[i] {
                RepoRow::Repo(idx) => idx < self.repos.len() && str_eq(
                    self.repos[idx].name.as_str(),
                    name.as_str(),
                ),
                RepoRow::Separator(_) => false,
            };
            if hit {
                proof {
                    lemma_row_of_name_at(self.filtered_rows@, self.repos@, name@, i as int);
                }
                self.row_cursor = i;
                self.detail_selected = 0;
                self.detail_scroll = 0;
                self.close_cargo_ng();
                return;
            }
            i += 1;
        }
        proof {
            lemma_row_of_name_at(self.filtered_rows@, self.repos@, name@, i as int);
        }
        self.close_cargo_ng();
    }
}

} // verus!
