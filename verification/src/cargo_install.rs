//! `cargo install --git` metadata: install entries, checkout directories and
//! the hashes compared against the remote.
use vstd::prelude::*;

use crate::cargo_log::log_cargo_check_result;
use crate::text::{
    all_hex, chars_eq, chars_of, contains, contains_chars, ends_with, ends_with_chars, find_chars,
    first_index, is_hex, is_hex_char, lemma_first_index_at, occurs_at, push_str, slice_sub,
    starts_with, starts_with_chars, str_eq, string_of, trim, trim_chars, words, words_of,
};

verus! {

/// Outcome of comparing a `cargo install --git` checkout with the remote.
#[derive(Debug, PartialEq, Eq)]
pub enum CargoGitInstallCheck {
    /// No install entry points at the repository.
    NotInstalled,
    /// An install entry exists but a hash could not be resolved.
    Failed,
    /// All hashes were resolved (`local_hash` may be empty: it is only
    /// for the log).
    Checked {
        matches_remote: bool,
        installed_hash: String,
        local_hash: String,
        remote_hash: String,
    },
}

impl CargoGitInstallCheck {
    /// `(matches_remote, installed, local, remote)` when checked.
    pub fn as_legacy_tuple(&self) -> (r: Option<(bool, String, String, String)>)
        ensures
            match self {
                CargoGitInstallCheck::Checked {
                    matches_remote,
                    installed_hash,
                    local_hash,
                    remote_hash,
                } => r matches Some(t) && t.0 == *matches_remote && t.1@ == installed_hash@
                    && t.2@ == local_hash@ && t.3@ == remote_hash@,
                _ => r is None,
            },
    {
        match self {
            CargoGitInstallCheck::Checked {
                matches_remote,
                installed_hash,
                local_hash,
                remote_hash,
            } => Some(
                (*matches_remote, installed_hash.clone(), local_hash.clone(), remote_hash.clone()),
            ),
            CargoGitInstallCheck::NotInstalled => None,
            CargoGitInstallCheck::Failed => None,
        }
    }
}

/// A `.crates2.json` install key, taken apart.
#[derive(Debug, PartialEq, Eq)]
pub struct CargoInstallMetadata {
    pub crate_name: String,
    pub git_url: String,
    pub repo_name: String,
    pub metadata_revision: String,
}

/// `s` without all trailing `c`.
pub open spec fn trim_end_char(s: Seq<char>, c: char) -> Seq<char>
    decreases s.len(),
{
    if s.len() > 0 && s.last() == c {
        trim_end_char(s.drop_last(), c)
    } else {
        s
    }
}

/// `s` without all trailing copies of `p`.
pub open spec fn trim_end_seq(s: Seq<char>, p: Seq<char>) -> Seq<char>
    decreases s.len(),
{
    if p.len() > 0 && ends_with(s, p) {
        trim_end_seq(s.take(s.len() - p.len()), p)
    } else {
        s
    }
}

/// Index of the last `c` in `s`, or -1.
pub open spec fn last_index(s: Seq<char>, c: char) -> int
    decreases s.len(),
{
    if s.len() == 0 {
        -1
    } else if s.last() == c {
        s.len() - 1
    } else {
        last_index(s.drop_last(), c)
    }
}

/// The text after the last `c` (all of `s` when there is none), as
/// `s.rsplit(c).next()`.
pub open spec fn after_last(s: Seq<char>, c: char) -> Seq<char> {
    s.skip(last_index(s, c) + 1)
}

/// The first index at which `p` occurs in `s`.
pub open spec fn first_occurrence(s: Seq<char>, p: Seq<char>) -> int {
    choose|i: int| occurs_at(s, p, i) && forall|j: int| 0 <= j < i ==> !occurs_at(s, p, j)
}

/// The parts of an install key `"<crate> <version> (git+<url>#<rev>)"`:
/// crate name, git URL, repository name and revision.
pub open spec fn parsed_install_entry(entry: Seq<char>) -> Option<
    (Seq<char>, Seq<char>, Seq<char>, Seq<char>),
> {
    let ws = words(entry);
    if ws.len() == 0 || !contains(entry, "git+"@) {
        None
    } else {
        let src0 = trim(entry.skip(first_occurrence(entry, "git+"@) + "git+"@.len()));
        let src1 = trim(
            if src0.len() > 0 && src0.last() == ')' {
                src0.drop_last()
            } else {
                src0
            },
        );
        let h = first_index(src1, '#');
        if h >= src1.len() {
            None
        } else {
            let url = trim(src1.take(h));
            let rev = trim(trim_end_char(trim(src1.skip(h + 1)), ')'));
            if url.len() == 0 || rev.len() == 0 {
                None
            } else {
                let name = trim(after_last(trim_end_seq(trim_end_char(url, '/'), ".git"@), '/'));
                if name.len() == 0 {
                    None
                } else {
                    Some((ws[0], url, name, rev))
                }
            }
        }
    }
}

pub proof fn lemma_first_occurrence(s: Seq<char>, p: Seq<char>, i: int)
    requires
        occurs_at(s, p, i),
        forall|j: int| 0 <= j < i ==> !occurs_at(s, p, j),
    ensures
        first_occurrence(s, p) == i,
{
    let k = first_occurrence(s, p);
    assert(occurs_at(s, p, k) && forall|j: int| 0 <= j < k ==> !occurs_at(s, p, j));
    if k < i {
        assert(!occurs_at(s, p, k));
    } else if k > i {
        assert(!occurs_at(s, p, i));
    }
}

/// `s` without all trailing `c`.
pub fn trim_end_char_exec(s: &[char], c: char) -> (r: Vec<char>)
    ensures
        r@ == trim_end_char(s@, c),
{
    let mut j: usize = s.len();
    assert(s@.take(s@.len() as int) =~= s@);
    while j > 0 && s[j - 1] == c
        invariant
            j <= s.len(),
            trim_end_char(s@, c) == trim_end_char(s@.take(j as int), c),
        decreases j,
    {
        assert(s@.take(j as int).drop_last() =~= s@.take(j - 1));
        j -= 1;
    }
    assert(s@.take(s@.len() as int) =~= s@);
    slice_sub(s, 0, j)
}

/// `s` without all trailing copies of `p`.
pub fn trim_end_seq_exec(s: &[char], p: &[char]) -> (r: Vec<char>)
    ensures
        r@ == trim_end_seq(s@, p@),
{
    let mut cur: Vec<char> = slice_sub(s, 0, s.len());
    assert(cur@ =~= s@);
    while p.len() > 0 && ends_with_chars(cur.as_slice(), p)
        invariant
            trim_end_seq(s@, p@) == trim_end_seq(cur@, p@),
        decreases cur@.len(),
    {
        cur = slice_sub(cur.as_slice(), 0, cur.len() - p.len());
    }
    cur
}

/// The text after the last `c`.
pub fn after_last_exec(s: &[char], c: char) -> (r: Vec<char>)
    ensures
        r@ == after_last(s@, c),
{
    let mut j: usize = s.len();
    assert(s@.take(s@.len() as int) =~= s@);
    while j > 0 && s[j - 1] != c
        invariant
            j <= s.len(),
            last_index(s@, c) == last_index(s@.take(j as int), c),
        decreases j,
    {
        assert(s@.take(j as int).drop_last() =~= s@.take(j - 1));
        j -= 1;
    }
    proof {
        assert(s@.take(s@.len() as int) =~= s@);
        if j > 0 {
            assert(s@.take(j as int).last() == c);
        }
    }
    slice_sub(s, j, s.len())
}

/// Takes an install key `"<crate> <version> (git+<url>#<rev>)"` apart.
pub fn parse_cargo_install_entry(entry: &str) -> (r: Option<CargoInstallMetadata>)
    ensures
        match parsed_install_entry(entry@) {
            Some((c, u, n, v)) => r matches Some(m) && m.crate_name@ == c && m.git_url@ == u
                && m.repo_name@ == n && m.metadata_revision@ == v,
            None => r is None,
        },
{
    let e = chars_of(entry);
    let ws = words_of(e.as_slice());
    if ws.len() == 0 {
        return None;
    }
    assert(ws@[0]@ == crate::text::views(ws@)[0]);
    let git = chars_of("git+");
    let found = find_chars(e.as_slice(), git.as_slice());
    if found.is_none() {
        return None;
    }
    let start = found.unwrap();
    proof {
        lemma_first_occurrence(e@, git@, start as int);
    }
    assert(start + git@.len() <= e@.len());
    let glen: usize = git.len();
    assert(start + glen <= e.len());
    let from: usize = start + glen;
    let src0 = trim_chars(slice_sub(e.as_slice(), from, e.len()).as_slice());
    assert(e@.subrange(start + git.len(), e@.len() as int) =~= e@.skip(start + git@.len()));
    let src1 = if src0.len() > 0 && src0[src0.len() - 1] == ')' {
        trim_chars(slice_sub(src0.as_slice(), 0, src0.len() - 1).as_slice())
    } else {
        trim_chars(src0.as_slice())
    };
    proof {
        if src0@.len() > 0 {
            assert(src0@.subrange(0, src0@.len() - 1) =~= src0@.drop_last());
        }
    }
    let mut h: usize = 0;
    while h < src1.len() && src1[h] != '#'
        invariant
            h <= src1@.len(),
            forall|k: int| 0 <= k < h ==> src1@[k] != '#',
        decreases src1@.len() - h,
    {
        h += 1;
    }
    proof {
        lemma_first_index_at(src1@, '#', h as int);
    }
    if h >= src1.len() {
        return None;
    }
    let url = trim_chars(slice_sub(src1.as_slice(), 0, h).as_slice());
    assert(src1@.subrange(0, h as int) =~= src1@.take(h as int));
    let rest = trim_chars(slice_sub(src1.as_slice(), h + 1, src1.len()).as_slice());
    assert(src1@.subrange(h + 1, src1@.len() as int) =~= src1@.skip(h + 1));
    let rev = trim_chars(trim_end_char_exec(rest.as_slice(), ')').as_slice());
    if url.len() == 0 || rev.len() == 0 {
        return None;
    }
    let dot_git = chars_of(".git");
    let norm = trim_end_seq_exec(trim_end_char_exec(url.as_slice(), '/').as_slice(), dot_git.as_slice());
    let name = trim_chars(after_last_exec(norm.as_slice(), '/').as_slice());
    if name.len() == 0 {
        return None;
    }
    Some(
        CargoInstallMetadata {
            crate_name: string_of(ws[0].as_slice()),
            git_url: string_of(url.as_slice()),
            repo_name: string_of(name.as_slice()),
            metadata_revision: string_of(rev.as_slice()),
        },
    )
}

/// The install key source for `owner/repo`: `git+https://github.com/<owner>/<repo>`.
pub open spec fn repo_git_source(owner: Seq<char>, repo: Seq<char>) -> Seq<char> {
    "git+https://github.com/"@ + owner + "/"@ + repo
}

/// An install key points at `owner/repo`, with or without `.git`.
pub open spec fn entry_matches_repo(key: Seq<char>, owner: Seq<char>, repo: Seq<char>) -> bool {
    let src = trim_end_char(key, ')');
    contains(src, repo_git_source(owner, repo) + "#"@) || contains(
        src,
        repo_git_source(owner, repo) + ".git#"@,
    )
}

/// Whether the install key `key` points at `owner/repo_name`.
pub fn cargo_install_entry_matches_repo(key: &str, owner: &str, repo_name: &str) -> (r: bool)
    ensures
        r == entry_matches_repo(key@, owner@, repo_name@),
{
    let k = chars_of(key);
    let src = trim_end_char_exec(k.as_slice(), ')');
    let mut plain = String::new();
    push_str(&mut plain, "git+https://github.com/");
    push_str(&mut plain, owner);
    push_str(&mut plain, "/");
    push_str(&mut plain, repo_name);
    let mut with_git = plain.clone();
    push_str(&mut plain, "#");
    push_str(&mut with_git, ".git#");
    assert(plain@ =~= repo_git_source(owner@, repo_name@) + "#"@);
    assert(with_git@ =~= repo_git_source(owner@, repo_name@) + ".git#"@);
    let a = chars_of(plain.as_str());
    let b = chars_of(with_git.as_str());
    contains_chars(src.as_slice(), a.as_slice()) || contains_chars(src.as_slice(), b.as_slice())
}

/// A checkout directory belongs to `app`: its name is `app`, or `app-`
/// followed by hex digits.
pub open spec fn checkout_dir_matches(dir: Seq<char>, app: Seq<char>) -> bool {
    dir == app || (starts_with(dir, app) && dir.len() > app.len() + 1 && dir[app.len() as int]
        == '-' && all_hex(dir.skip(app.len() + 1int)))
}

/// Whether the checkout directory `dir_name` belongs to `app_name`.
pub fn matches_checkout_dir_name(dir_name: &str, app_name: &str) -> (r: bool)
    ensures
        r == checkout_dir_matches(dir_name@, app_name@),
{
    let d = chars_of(dir_name);
    let a = chars_of(app_name);
    if chars_eq(d.as_slice(), a.as_slice()) {
        return true;
    }
    if !starts_with_chars(d.as_slice(), a.as_slice()) {
        return false;
    }
    if d.len() - a.len() <= 1 || d[a.len()] != '-' {
        assert(d@ != a@);
        return false;
    }
    let mut i: usize = a.len() + 1;
    while i < d.len()
        invariant
            a@.len() + 1 <= i <= d@.len(),
            starts_with(d@, a@),
            d@.len() > a@.len() + 1,
            d@[a@.len() as int] == '-',
            d@ == dir_name@,
            a@ == app_name@,
            forall|k: int| a@.len() + 1 <= k < i ==> is_hex(#[trigger] d@[k]),
        decreases d@.len() - i,
    {
        if !is_hex_char(d[i]) {
            assert(d@.skip(a@.len() + 1int)[i - a@.len() - 1] == d@[i as int]);
            assert(!all_hex(d@.skip(a@.len() + 1int)));
            return false;
        }
        i += 1;
    }
    assert forall|k: int| 0 <= k < d@.skip(a@.len() + 1int).len() implies is_hex(
        #[trigger] d@.skip(a@.len() + 1int)[k],
    ) by {
        assert(d@.skip(a@.len() + 1int)[k] == d@[k + a@.len() + 1]);
    }
    true
}

/// The checkout directory names to look for, in order: the repository
/// name, then the crate name, each once and only when non-empty.
pub open spec fn checkout_candidates(repo: Seq<char>, app: Seq<char>) -> Seq<Seq<char>> {
    let first: Seq<Seq<char>> = if repo.len() > 0 {
        seq![repo]
    } else {
        seq![]
    };
    if app.len() > 0 && !(repo.len() > 0 && repo == app) {
        first.push(app)
    } else {
        first
    }
}

/// The checkout directory names to look for.
pub fn unique_checkout_name_candidates(repo_checkout_name: &str, app_name: &str) -> (r: Vec<String>)
    ensures
        r@.map_values(|s: String| s@) == checkout_candidates(repo_checkout_name@, app_name@),
{
    let mut r: Vec<String> = Vec::new();
    if !repo_checkout_name.is_empty() {
        r.push(repo_checkout_name.to_owned());
    }
    if !app_name.is_empty() && !(!repo_checkout_name.is_empty() && str_eq(
        repo_checkout_name,
        app_name,
    )) {
        r.push(app_name.to_owned());
    }
    assert(r@.map_values(|s: String| s@) =~= checkout_candidates(repo_checkout_name@, app_name@));
    r
}

/// `c` does not occur in `s`.
pub open spec fn lacks(s: Seq<char>, c: char) -> bool {
    forall|i: int| 0 <= i < s.len() ==> s[i] != c
}

/// An install key as `cargo install --git` writes it for a GitHub
/// repository: `<crate> <version> (git+https://github.com/<owner>/<repo>#<rev>)`,
/// with `prefix` holding `<crate> <version> `.
pub open spec fn github_install_key(
    prefix: Seq<char>,
    owner: Seq<char>,
    repo: Seq<char>,
    rev: Seq<char>,
) -> Seq<char> {
    prefix + "(git+https://github.com/"@ + owner + "/"@ + repo + "#"@ + rev + ")"@
}

/// Splitting at the last `/`: texts that end in `/` and a part without `/`
/// agree on both sides of it.
proof fn lemma_last_slash(u: Seq<char>, b: Seq<char>, v: Seq<char>, d: Seq<char>)
    requires
        u + "/"@ + b == v + "/"@ + d,
        lacks(b, '/'),
        lacks(d, '/'),
    ensures
        b == d,
        u == v,
{
    reveal_strlit("/");
    reveal_strlit("#");
    reveal_strlit(")");
    reveal_strlit("(");
    reveal_strlit(".git");
    reveal_strlit(".git#");
    reveal_strlit("(git+https://github.com/");
    reveal_strlit("git+https://github.com/");
    reveal_strlit("git+https://github.com");
    let s = u + "/"@ + b;
    let t = v + "/"@ + d;
    assert(s.len() == t.len());
    if b.len() < d.len() {
        let j = s.len() - 1 - b.len();
        assert(s[j] == '/');
        assert(t[j] == d[j - v.len() - 1]);
    } else if d.len() < b.len() {
        let j = t.len() - 1 - d.len();
        assert(t[j] == '/');
        assert(s[j] == b[j - u.len() - 1]);
    }
    assert(b =~= s.skip(s.len() - b.len()));
    assert(d =~= t.skip(t.len() - d.len()));
    assert(u =~= s.take(u.len() as int));
    assert(v =~= t.take(v.len() as int));
}

/// The text an install key is searched in: the key without its closing
/// parenthesis.
proof fn lemma_install_key_source(prefix: Seq<char>, owner: Seq<char>, repo: Seq<char>, rev: Seq<char>)
    requires
        lacks(rev, ')'),
    ensures
        trim_end_char(github_install_key(prefix, owner, repo, rev), ')') == prefix
            + "(git+https://github.com/"@ + owner + "/"@ + repo + "#"@ + rev,
{
    reveal_strlit("/");
    reveal_strlit("#");
    reveal_strlit(")");
    reveal_strlit("(");
    reveal_strlit(".git");
    reveal_strlit(".git#");
    reveal_strlit("(git+https://github.com/");
    reveal_strlit("git+https://github.com/");
    reveal_strlit("git+https://github.com");
    let key = github_install_key(prefix, owner, repo, rev);
    let src = prefix + "(git+https://github.com/"@ + owner + "/"@ + repo + "#"@ + rev;
    assert(key.drop_last() =~= src);
    assert(key.last() == ')');
    assert(trim_end_char(key, ')') == trim_end_char(key.drop_last(), ')'));
    if rev.len() > 0 {
        assert(src.last() == rev[rev.len() - 1]);
        assert(rev[rev.len() - 1] != ')');
    } else {
        assert(src.last() == '#');
    }
    assert(src.len() > 0);
    assert(trim_end_char(src, ')') == src);
}

/// A pattern ending in `#` that occurs in a text with a single `#` ends at
/// that `#`: the part before it ends the text before the `#`.
proof fn lemma_hash_anchor(a: Seq<char>, rev: Seq<char>, q: Seq<char>, i: int)
    requires
        lacks(a, '#'),
        lacks(rev, '#'),
        occurs_at(a + "#"@ + rev, q + "#"@, i),
    ensures
        a == a.take(i) + q,
{
    reveal_strlit("/");
    reveal_strlit("#");
    reveal_strlit(")");
    reveal_strlit("(");
    reveal_strlit(".git");
    reveal_strlit(".git#");
    reveal_strlit("(git+https://github.com/");
    reveal_strlit("git+https://github.com/");
    reveal_strlit("git+https://github.com");
    let src = a + "#"@ + rev;
    let p = q + "#"@;
    let e = i + p.len() - 1;
    assert(src.subrange(i, i + p.len())[p.len() - 1] == '#');
    assert(src[e] == '#');
    if e < a.len() {
        assert(src[e] == a[e]);
    } else if e > a.len() {
        assert(src[e] == rev[e - a.len() - 1]);
    }
    assert(e == a.len());
    assert forall|j: int| 0 <= j < q.len() implies a[i + j] == q[j] by {
        assert(src.subrange(i, i + p.len())[j] == p[j]);
        assert(src[i + j] == a[i + j]);
    }
    assert(a =~= a.take(i) + q);
}

/// An install key points at `owner/repo` when its git source is
/// `https://github.com/<owner>/<repo>`, with or without `.git`.
pub proof fn law_install_key_matches_its_repository(
    prefix: Seq<char>,
    owner: Seq<char>,
    repo: Seq<char>,
    rev: Seq<char>,
)
    requires
        lacks(rev, ')'),
    ensures
        entry_matches_repo(github_install_key(prefix, owner, repo, rev), owner, repo),
        entry_matches_repo(github_install_key(prefix, owner, repo + ".git"@, rev), owner, repo),
{
    reveal_strlit("/");
    reveal_strlit("#");
    reveal_strlit(")");
    reveal_strlit("(");
    reveal_strlit(".git");
    reveal_strlit(".git#");
    reveal_strlit("(git+https://github.com/");
    reveal_strlit("git+https://github.com/");
    reveal_strlit("git+https://github.com");
    lemma_install_key_source(prefix, owner, repo, rev);
    let src = prefix + "(git+https://github.com/"@ + owner + "/"@ + repo + "#"@ + rev;
    let p = repo_git_source(owner, repo) + "#"@;
    let at: int = prefix.len() + 1int;
    assert(src.subrange(at, at + p.len()) =~= p);
    assert(occurs_at(src, p, at));
    lemma_install_key_source(prefix, owner, repo + ".git"@, rev);
    let src2 = prefix + "(git+https://github.com/"@ + owner + "/"@ + (repo + ".git"@) + "#"@ + rev;
    let p2 = repo_git_source(owner, repo) + ".git#"@;
    assert(src2.subrange(at, at + p2.len()) =~= p2);
    assert(occurs_at(src2, p2, at));
}

/// An install key whose git source names another GitHub repository
/// `o2/other` (another owner, or a repository whose name merely starts with
/// `repo`) does not point at `owner/repo`.
pub proof fn law_install_key_names_no_other_repository(
    prefix: Seq<char>,
    o2: Seq<char>,
    other: Seq<char>,
    rev: Seq<char>,
    owner: Seq<char>,
    repo: Seq<char>,
)
    requires
        lacks(prefix, '#'),
        lacks(o2, '#'),
        lacks(other, '#'),
        lacks(rev, '#'),
        lacks(rev, ')'),
        lacks(o2, '/'),
        lacks(other, '/'),
        lacks(owner, '/'),
        lacks(repo, '/'),
        !(o2 == owner && (other == repo || other == repo + ".git"@)),
    ensures
        !entry_matches_repo(github_install_key(prefix, o2, other, rev), owner, repo),
{
    reveal_strlit("/");
    reveal_strlit("#");
    reveal_strlit(")");
    reveal_strlit("(");
    reveal_strlit(".git");
    reveal_strlit(".git#");
    reveal_strlit("(git+https://github.com/");
    reveal_strlit("git+https://github.com/");
    reveal_strlit("git+https://github.com");
    lemma_install_key_source(prefix, o2, other, rev);
    let g0 = "git+https://github.com"@;
    let a = prefix + "(git+https://github.com/"@ + o2 + "/"@ + other;
    assert(prefix + "(git+https://github.com/"@ + o2 + "/"@ + other + "#"@ + rev =~= a + "#"@ + rev);
    assert(lacks(a, '#')) by {
        assert forall|j: int| 0 <= j < a.len() implies a[j] != '#' by {
            if j < prefix.len() {
                assert(a[j] == prefix[j]);
            } else if j < prefix.len() + 24 {
            } else if j < prefix.len() + 24 + o2.len() {
                assert(a[j] == o2[j - prefix.len() - 24]);
            } else if j > prefix.len() + 24 + o2.len() {
                assert(a[j] == other[j - prefix.len() - 25 - o2.len()]);
            }
        }
    }
    assert(a =~= (prefix + "("@ + g0 + "/"@ + o2) + "/"@ + other);
    let src = a + "#"@ + rev;
    let q1 = repo_git_source(owner, repo);
    if contains(src, q1 + "#"@) {
        let i = choose|i: int| occurs_at(src, q1 + "#"@, i);
        lemma_hash_anchor(a, rev, q1, i);
        assert(a.take(i) + q1 =~= (a.take(i) + g0 + "/"@ + owner) + "/"@ + repo);
        lemma_last_slash(prefix + "("@ + g0 + "/"@ + o2, other, a.take(i) + g0 + "/"@ + owner, repo);
        assert(prefix + "("@ + g0 + "/"@ + o2 =~= (prefix + "("@ + g0) + "/"@ + o2);
        assert(a.take(i) + g0 + "/"@ + owner =~= (a.take(i) + g0) + "/"@ + owner);
        lemma_last_slash(prefix + "("@ + g0, o2, a.take(i) + g0, owner);
    }
    let q2 = repo_git_source(owner, repo) + ".git"@;
    assert(q2 + "#"@ =~= repo_git_source(owner, repo) + ".git#"@);
    if contains(src, q2 + "#"@) {
        let i = choose|i: int| occurs_at(src, q2 + "#"@, i);
        lemma_hash_anchor(a, rev, q2, i);
        assert(lacks(repo + ".git"@, '/')) by {
            assert forall|j: int| 0 <= j < (repo + ".git"@).len() implies (repo + ".git"@)[j] != '/' by {
                if j < repo.len() {
                    assert((repo + ".git"@)[j] == repo[j]);
                }
            }
        }
        assert(a.take(i) + q2 =~= (a.take(i) + g0 + "/"@ + owner) + "/"@ + (repo + ".git"@));
        lemma_last_slash(
            prefix + "("@ + g0 + "/"@ + o2,
            other,
            a.take(i) + g0 + "/"@ + owner,
            repo + ".git"@,
        );
        assert(prefix + "("@ + g0 + "/"@ + o2 =~= (prefix + "("@ + g0) + "/"@ + o2);
        assert(a.take(i) + g0 + "/"@ + owner =~= (a.take(i) + g0) + "/"@ + owner);
        lemma_last_slash(prefix + "("@ + g0, o2, a.take(i) + g0, owner);
    }
}

} // verus!
