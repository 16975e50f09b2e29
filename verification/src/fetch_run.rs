//! The paged listing of an owner's repositories: the query of each page,
//! and what each answered page decides (next page, cached list, or the
//! finished list in display order).
use vstd::prelude::*;

use crate::fetch::{
    GqlRepo, build_repo_info, display_order_of, hex_string, hex_text, kept_listing, listed_repo,
    sort_repos_for_display,
};
use crate::history::History;
use crate::text::{push_str, str_eq};
use crate::types::{LocalStatus, RateLimit, RepoInfo, copy_repos, same_repos};

verus! {

/// One answered page of the listing.
pub struct GqlPage {
    pub repos: Vec<GqlRepo>,
    pub has_next_page: bool,
    pub end_cursor: Option<String>,
    pub rate_limit: RateLimit,
}

/// The view of an optional string.
pub open spec fn opt_view(s: Option<String>) -> Option<Seq<char>> {
    match s {
        Some(t) => Some(t@),
        None => None,
    }
}

/// The text before the owner in the listing query.
pub open spec fn query_head() -> Seq<char> {
    "query {\n  repositoryOwner(login: \""@
}

/// The text between the owner and the page cursor.
pub open spec fn query_middle() -> Seq<char> {
    "\") {\n    repositories(first: 100, orderBy: {field: UPDATED_AT, direction: DESC}"@
}

/// The text after the page cursor.
pub open spec fn query_tail() -> Seq<char> {
    ") {\n      nodes {\n        name\n        nameWithOwner\n        updatedAt\n        isFork\n        isArchived\n        isPrivate\n        issues(states: OPEN, first: 20, orderBy: {field: UPDATED_AT, direction: DESC}) {\n          totalCount\n          nodes { title number updatedAt }\n        }\n        pullRequests(states: OPEN, first: 20, orderBy: {field: UPDATED_AT, direction: DESC}) {\n          totalCount\n          nodes { title number updatedAt closingIssuesReferences(first: 2) { nodes { number } } }\n        }\n      }\n      pageInfo { hasNextPage endCursor }\n    }\n  }\n  rateLimit { remaining limit resetAt }\n}"@
}

/// `, after: "<cursor>"` for a later page, nothing for the first.
pub open spec fn after_clause(cursor: Option<Seq<char>>) -> Seq<char> {
    match cursor {
        Some(c) => ", after: \""@ + c + "\""@,
        None => Seq::empty(),
    }
}

/// The GraphQL query for one page of `owner`'s repositories, most recently
/// updated first, with their open issues and pull requests and the rate
/// limit.
pub open spec fn query_text(owner: Seq<char>, cursor: Option<Seq<char>>) -> Seq<char> {
    query_head() + owner + query_middle() + after_clause(cursor) + query_tail()
}

/// The listing query for `owner`, after `cursor` when given.
pub fn graphql_query(owner: &str, cursor: Option<&str>) -> (r: String)
    ensures
        r@ == query_text(
            owner@,
            match cursor {
                Some(c) => Some(c@),
                None => None,
            },
        ),
{
    let mut s = String::new();
    push_str(&mut s, "query {\n  repositoryOwner(login: \"");
    push_str(&mut s, owner);
    push_str(&mut s, "\") {\n    repositories(first: 100, orderBy: {field: UPDATED_AT, direction: DESC}");
    match cursor {
        Some(c) => {
            push_str(&mut s, ", after: \"");
            push_str(&mut s, c);
            push_str(&mut s, "\"");
        },
        None => {},
    }
    push_str(&mut s, ") {\n      nodes {\n        name\n        nameWithOwner\n        updatedAt\n        isFork\n        isArchived\n        isPrivate\n        issues(states: OPEN, first: 20, orderBy: {field: UPDATED_AT, direction: DESC}) {\n          totalCount\n          nodes { title number updatedAt }\n        }\n        pullRequests(states: OPEN, first: 20, orderBy: {field: UPDATED_AT, direction: DESC}) {\n          totalCount\n          nodes { title number updatedAt closingIssuesReferences(first: 2) { nodes { number } } }\n        }\n      }\n      pageInfo { hasNextPage endCursor }\n    }\n  }\n  rateLimit { remaining limit resetAt }\n}");
    proof {
        let cv = match cursor {
            Some(c) => Some(c@),
            None => None,
        };
        assert(s@ =~= query_text(owner@, cv));
    }
    s
}

/// The records made from a page's repositories, in order: the kept
/// listings, each made as `listed_repo` says.
pub open spec fn listed_page<C, H>(
    history_repos: Seq<RepoInfo>,
    repos: Seq<GqlRepo>,
    now: (i64, u32),
    check_local_status: C,
    local_head_hash: H,
    out: Seq<RepoInfo>,
) -> bool where
    C: FnMut(&str) -> (LocalStatus, bool, Vec<String>),
    H: FnMut(&str) -> String,

    decreases repos.len(),
{
    if repos.len() == 0 {
        out.len() == 0
    } else if !kept_listing(repos.last()) {
        listed_page(history_repos, repos.drop_last(), now, check_local_status, local_head_hash, out)
    } else {
        &&& out.len() > 0
        &&& listed_page(
            history_repos,
            repos.drop_last(),
            now,
            check_local_status,
            local_head_hash,
            out.drop_last(),
        )
        &&& listed_repo(history_repos, repos.last(), now, check_local_status, local_head_hash, out.last())
    }
}

/// A listing in progress: the owner, the cursor of the page asked for
/// (none for the first), and the records made so far.
pub struct FetchRun {
    pub owner: String,
    pub cursor: Option<String>,
    pub repos: Vec<RepoInfo>,
}

/// What an answered page decides.
pub enum FetchStep {
    /// Ask for the next page with this query.
    Next { query: String },
    /// The first page is the one cached: the cached list stands.
    Cached { repos: Vec<RepoInfo>, rate_limit: RateLimit },
    /// The last page is in: the list in display order.
    Done { repos: Vec<RepoInfo>, rate_limit: RateLimit },
}

/// The first page of a listing whose hash is the one cached for it, with
/// repositories cached, is answered from the cache.
pub open spec fn serves_cached(
    cursor: Option<String>,
    cached_hash: Option<&String>,
    response_hash: u64,
    cached_repos: nat,
) -> bool {
    &&& cursor is None
    &&& cached_hash matches Some(h) && h@ == hex_text(response_hash as nat)
    &&& cached_repos > 0
}

impl FetchRun {
    /// A listing of `owner`'s repositories and the query of its first page.
    pub fn start(owner: &str) -> (r: (FetchRun, String))
        ensures
            r.0.owner@ == owner@,
            r.0.cursor is None,
            r.0.repos@.len() == 0,
            r.1@ == query_text(owner@, None),
    {
        let q = graphql_query(owner, None);
        (FetchRun { owner: owner.to_owned(), cursor: None, repos: Vec::new() }, q)
    }

    /// Takes in an answered page.  `cached_hash` is the hash stored under
    /// the listing's cache key, `response_hash` the hash of the page's
    /// text.  The second result is the hash to store under the cache key
    /// (for a first page that is not served from the cache).
    pub fn on_page<C, H>(
        &mut self,
        history: &mut History,
        cached_hash: Option<&String>,
        response_hash: u64,
        page: &GqlPage,
        now: (i64, u32),
        check_local_status: &mut C,
        local_head_hash: &mut H,
    ) -> (r: (FetchStep, Option<String>)) where
        C: FnMut(&str) -> (LocalStatus, bool, Vec<String>),
        H: FnMut(&str) -> String,

        requires
            forall|s: &str| call_requires(*old(check_local_status), (s,)),
            forall|s: &str| call_requires(*old(local_head_hash), (s,)),
        ensures
            *final(check_local_status) == *old(check_local_status),
            *final(local_head_hash) == *old(local_head_hash),
            final(history).etags == old(history).etags,
            final(self).owner == old(self).owner,
            serves_cached(old(self).cursor, cached_hash, response_hash, old(history).repos@.len())
                ==> {
                &&& *final(self) == *old(self)
                &&& r.1 is None
                &&& r.0 matches FetchStep::Cached { repos, rate_limit } && same_repos(
                    repos@,
                    old(history).repos@,
                ) && rate_limit == page.rate_limit
                &&& final(history).repos == old(history).repos
                &&& final(history).rate_limit == Some(page.rate_limit)
            },
            !serves_cached(old(self).cursor, cached_hash, response_hash, old(history).repos@.len())
                ==> {
                let n = old(self).repos@.len() as int;
                &&& old(self).cursor is None ==> (r.1 matches Some(h) && h@ == hex_text(
                    response_hash as nat,
                ))
                &&& old(self).cursor is Some ==> r.1 is None
                &&& final(self).repos@.len() >= n
                &&& final(self).repos@.take(n) == old(self).repos@
                &&& listed_page(
                    old(history).repos@,
                    page.repos@,
                    now,
                    *old(check_local_status),
                    *old(local_head_hash),
                    final(self).repos@.skip(n),
                )
                &&& page.has_next_page ==> {
                    &&& r.0 matches FetchStep::Next { query } && query@ == query_text(
                        old(self).owner@,
                        opt_view(page.end_cursor),
                    )
                    &&& final(self).cursor == page.end_cursor
                    &&& final(history).repos == old(history).repos
                    &&& final(history).rate_limit == old(history).rate_limit
                }
                &&& !page.has_next_page ==> {
                    &&& r.0 matches FetchStep::Done { repos, rate_limit } && display_order_of(
                        final(self).repos@,
                        repos@,
                    ) && rate_limit == page.rate_limit && same_repos(final(history).repos@, repos@)
                    &&& final(history).rate_limit == Some(page.rate_limit)
                }
            },
    {
        let hash = hex_string(response_hash);
        let first = self.cursor.is_none();
        if first {
            let hit = match cached_hash {
                Some(h) => str_eq(h.as_str(), hash.as_str()),
                None => false,
            };
            if hit && history.repos.len() > 0 {
                let rl = page.rate_limit.duplicate();
                history.rate_limit = Some(page.rate_limit.duplicate());
                return (FetchStep::Cached { repos: copy_repos(&history.repos), rate_limit: rl }, None);
            }
        }
        let store = if first {
            Some(hash)
        } else {
            None
        };
        let ghost n = self.repos@.len() as int;
        let ghost start = self.repos@;
        let ghost c0 = *check_local_status;
        let ghost h0 = *local_head_hash;
        let mut i: usize = 0;
        assert(self.repos@.skip(n) =~= Seq::<RepoInfo>::empty());
        assert(page.repos@.take(0) =~= Seq::<GqlRepo>::empty());
        while i < page.repos.len()
            invariant
                i <= page.repos@.len(),
                *check_local_status == c0,
                *local_head_hash == h0,
                forall|s: &str| call_requires(c0, (s,)),
                forall|s: &str| call_requires(h0, (s,)),
                self.owner == old(self).owner,
                self.cursor == old(self).cursor,
                n == start.len(),
                self.repos@.len() >= n,
                self.repos@.take(n) == start,
                listed_page(history.repos@, page.repos@.take(i as int), now, c0, h0, self.repos@.skip(n)),
            decreases page.repos@.len() - i,
        {
            let ghost before = self.repos@;
            let built = build_repo_info(
                &history.repos,
                &page.repos[i],
                now,
                check_local_status,
                local_head_hash,
            );
            proof {
                assert(page.repos@.take(i + 1).drop_last() =~= page.repos@.take(i as int));
                assert(page.repos@.take(i + 1).last() == page.repos@[i as int]);
            }
            match built {
                Some(info) => {
                    self.repos.push(info);
                    assert(self.repos@.take(n) =~= before.take(n));
                    assert(self.repos@.skip(n).drop_last() =~= before.skip(n));
                },
                None => {},
            }
            i += 1;
        }
        assert(page.repos@.take(page.repos@.len() as int) =~= page.repos@);
        if page.has_next_page {
            self.cursor = match &page.end_cursor {
                Some(c) => Some(c.clone()),
                None => None,
            };
            let q = match &page.end_cursor {
                Some(c) => graphql_query(self.owner.as_str(), Some(c.as_str())),
                None => graphql_query(self.owner.as_str(), None),
            };
            return (FetchStep::Next { query: q }, store);
        }
        let sorted = sort_repos_for_display(&self.repos);
        history.repos = copy_repos(&sorted);
        history.rate_limit = Some(page.rate_limit.duplicate());
        (FetchStep::Done { repos: sorted, rate_limit: page.rate_limit.duplicate() }, store)
    }
}

} // verus!
