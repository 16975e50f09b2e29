//! The binaries that `cargo install` recorded for a repository.
use vstd::prelude::*;

use crate::cargo_install::{cargo_install_entry_matches_repo, entry_matches_repo};
use crate::json::{
    JsonField, JsonValue, as_array, get_field, install_fields, installs_of, json_document, json_get,
    parse_json, string_items, strings_of,
};
use crate::text::str_eq;

verus! {

/// One install entry: its key and its `bins` list (`None` when the entry
/// has no `bins` array; entries of the array that are not strings are left
/// out).
pub struct InstallEntry {
    pub key: String,
    pub bins: Option<Vec<String>>,
}

/// The view of an install entry.
pub open spec fn entry_view(e: InstallEntry) -> (Seq<char>, Option<Seq<Seq<char>>>) {
    (
        e.key@,
        match e.bins {
            Some(b) => Some(b@.map_values(|s: String| s@)),
            None => None,
        },
    )
}

/// An install entry as plain values: its key and the string items of its
/// `bins` array (`None` when it has no such array).
pub open spec fn entry_of_field(f: JsonField) -> (Seq<char>, Option<Seq<Seq<char>>>) {
    (
        f.key@,
        match as_array(json_get(f.value, "bins"@)) {
            Some(items) => Some(string_items(items)),
            None => None,
        },
    )
}

/// The install entries of a `.crates2.json` text in the order the parser
/// hands them out; `None` when the text is not JSON or has no `installs`
/// object.
pub open spec fn crates2_install_entries(content: Seq<char>) -> Option<
    Seq<(Seq<char>, Option<Seq<Seq<char>>>)>,
> {
    match json_document(content) {
        Ok(doc) => match install_fields(doc) {
            Some(fields) => Some(fields.map_values(|f: JsonField| entry_of_field(f))),
            None => None,
        },
        Err(_) => None,
    }
}

/// The install entries of the `.crates2.json` text `content`.
fn install_entries_of(content: &str) -> (r: Option<Vec<InstallEntry>>)
    ensures
        match r {
            Some(v) => crates2_install_entries(content@) == Some(
                v@.map_values(|e: InstallEntry| entry_view(e)),
            ),
            None => crates2_install_entries(content@) is None,
        },
{
    let doc = match parse_json(content) {
        Ok(d) => d,
        Err(_) => {
            return None;
        },
    };
    let fields = match installs_of(&doc) {
        Some(f) => f,
        None => {
            return None;
        },
    };
    let ghost fv = fields@.map_values(|f: JsonField| entry_of_field(f));
    let mut out: Vec<InstallEntry> = Vec::new();
    let mut i: usize = 0;
    while i < fields.len()
        invariant
            i <= fields@.len(),
            fv == fields@.map_values(|f: JsonField| entry_of_field(f)),
            out@.len() == i,
            forall|j: int| 0 <= j < i ==> entry_view(#[trigger] out@[j]) == fv[j],
        decreases fields@.len() - i,
    {
        let bins = match get_field(&fields[i].value, "bins") {
            Some(JsonValue::Array(items)) => Some(strings_of(items)),
            _ => None,
        };
        out.push(InstallEntry { key: fields[i].key.clone(), bins });
        i += 1;
    }
    assert(out@.map_values(|e: InstallEntry| entry_view(e)) =~= fv);
    Some(out)
}

/// The first entry that points at `owner/repo`.
pub open spec fn first_matching_entry(
    entries: Seq<(Seq<char>, Option<Seq<Seq<char>>>)>,
    owner: Seq<char>,
    repo: Seq<char>,
) -> Option<(Seq<char>, Option<Seq<Seq<char>>>)>
    decreases entries.len(),
{
    if entries.len() == 0 {
        None
    } else if entry_matches_repo(entries[0].0, owner, repo) {
        Some(entries[0])
    } else {
        first_matching_entry(entries.drop_first(), owner, repo)
    }
}

/// The binaries of the first entry that points at `owner/repo` (none when
/// no entry does, or that entry has no `bins` list).
pub open spec fn first_entry_bins(
    entries: Seq<(Seq<char>, Option<Seq<Seq<char>>>)>,
    owner: Seq<char>,
    repo: Seq<char>,
) -> Option<Seq<Seq<char>>> {
    match first_matching_entry(entries, owner, repo) {
        Some(e) => e.1,
        None => None,
    }
}

/// The strings of `v`.
pub open spec fn string_views(v: Seq<String>) -> Seq<Seq<char>> {
    v.map_values(|s: String| s@)
}

/// A copy of a list of strings.
fn copy_string_list(v: &Vec<String>) -> (r: Vec<String>)
    ensures
        string_views(r@) == string_views(v@),
{
    let mut r: Vec<String> = Vec::new();
    let mut i: usize = 0;
    while i < v.len()
        invariant
            i <= v@.len(),
            r@.len() == i,
            forall|j: int| 0 <= j < i ==> (#[trigger] r@[j])@ == v@[j]@,
        decreases v@.len() - i,
    {
        r.push(v[i].clone());
        i += 1;
    }
    assert(string_views(r@) =~= string_views(v@));
    r
}

/// The binaries of the first install entry for `owner/repo_name`.
pub fn bins_of_first_entry(entries: &Vec<InstallEntry>, owner: &str, repo_name: &str) -> (r: Option<
    Vec<String>,
>)
    ensures
        match first_entry_bins(entries@.map_values(|e: InstallEntry| entry_view(e)), owner@, repo_name@) {
            Some(b) => r matches Some(v) && string_views(v@) == b,
            None => r is None,
        },
{
    let ghost ev = entries@.map_values(|e: InstallEntry| entry_view(e));
    let mut i: usize = 0;
    assert(ev.skip(0) =~= ev);
    while i < entries.len()
        invariant
            i <= entries@.len(),
            ev == entries@.map_values(|e: InstallEntry| entry_view(e)),
            first_matching_entry(ev, owner@, repo_name@) == first_matching_entry(
                ev.skip(i as int),
                owner@,
                repo_name@,
            ),
        decreases entries@.len() - i,
    {
        proof {
            assert(ev.skip(i as int)[0] == entry_view(entries@[i as int]));
            assert(ev.skip(i as int).drop_first() =~= ev.skip(i + 1));
        }
        if cargo_install_entry_matches_repo(entries[i].key.as_str(), owner, repo_name) {
            return match &entries[i].bins {
                Some(b) => Some(copy_string_list(b)),
                None => None,
            };
        }
        i += 1;
    }
    None
}

/// The binaries of the first install entry for `owner/repo_name` in the
/// `.crates2.json` text `content` (`None` when it could not be read).
pub fn get_cargo_bins_inner(content: Option<&str>, owner: &str, repo_name: &str) -> (r: Option<
    Vec<String>,
>)
    ensures
        match content {
            None => r is None,
            Some(c) => match crates2_install_entries(c@) {
                None => r is None,
                Some(entries) => match first_entry_bins(entries, owner@, repo_name@) {
                    Some(b) => r matches Some(v) && string_views(v@) == b,
                    None => r is None,
                },
            },
        },
{
    let c = match content {
        Some(c) => c,
        None => {
            return None;
        },
    };
    match install_entries_of(c) {
        Some(entries) => bins_of_first_entry(&entries, owner, repo_name),
        None => None,
    }
}

/// Appends to `acc` the items of `items` not already in it, in order.
pub open spec fn union_in_order(acc: Seq<Seq<char>>, items: Seq<Seq<char>>) -> Seq<Seq<char>>
    decreases items.len(),
{
    if items.len() == 0 {
        acc
    } else {
        let prev = union_in_order(acc, items.drop_last());
        if prev.contains(items.last()) {
            prev
        } else {
            prev.push(items.last())
        }
    }
}

/// The binaries of all entries that point at `owner/repo`, each once, in
/// the order met.
pub open spec fn all_entry_bins(
    entries: Seq<(Seq<char>, Option<Seq<Seq<char>>>)>,
    owner: Seq<char>,
    repo: Seq<char>,
) -> Seq<Seq<char>>
    decreases entries.len(),
{
    if entries.len() == 0 {
        seq![]
    } else {
        let prev = all_entry_bins(entries.drop_last(), owner, repo);
        let e = entries.last();
        if entry_matches_repo(e.0, owner, repo) {
            match e.1 {
                Some(b) => union_in_order(prev, b),
                None => prev,
            }
        } else {
            prev
        }
    }
}

/// Some entry points at `owner/repo`.
pub open spec fn any_entry_matches(
    entries: Seq<(Seq<char>, Option<Seq<Seq<char>>>)>,
    owner: Seq<char>,
    repo: Seq<char>,
) -> bool {
    exists|i: int| 0 <= i < entries.len() && entry_matches_repo((#[trigger] entries[i]).0, owner, repo)
}

/// Whether `v` holds `s`.
fn list_contains(v: &Vec<String>, s: &str) -> (r: bool)
    ensures
        r == string_views(v@).contains(s@),
{
    let mut i: usize = 0;
    while i < v.len()
        invariant
            i <= v@.len(),
            forall|j: int| 0 <= j < i ==> (#[trigger] v@[j])@ != s@,
        decreases v@.len() - i,
    {
        if str_eq(v[i].as_str(), s) {
            assert(string_views(v@)[i as int] == s@);
            return true;
        }
        i += 1;
    }
    proof {
        if string_views(v@).contains(s@) {
            let j = choose|j: int| 0 <= j < string_views(v@).len() && string_views(v@)[j] == s@;
            assert(v@[j]@ == s@);
        }
    }
    false
}

/// Adds the items of `items` that `acc` does not hold yet.
fn add_new_items(acc: &mut Vec<String>, items: &Vec<String>)
    ensures
        string_views(final(acc)@) == union_in_order(string_views(old(acc)@), string_views(items@)),
{
    let ghost start = string_views(acc@);
    let ghost iv = string_views(items@);
    let mut i: usize = 0;
    while i < items.len()
        invariant
            i <= items@.len(),
            iv == string_views(items@),
            string_views(acc@) == union_in_order(start, iv.take(i as int)),
        decreases items@.len() - i,
    {
        proof {
            assert(iv.take(i + 1).drop_last() =~= iv.take(i as int));
            assert(iv.take(i + 1).last() == items@[i as int]@);
        }
        if !list_contains(acc, items[i].as_str()) {
            let ghost before = acc@;
            acc.push(items[i].clone());
            assert(string_views(acc@) =~= string_views(before).push(items@[i as int]@));
        }
        i += 1;
    }
    assert(iv.take(items@.len() as int) =~= iv);
}

/// The binaries of every install entry for `owner/repo_name`, each once
/// (`None` when no entry points at the repository).  A workspace can
/// install several packages from one repository; all of them count.
pub fn bins_of_all_entries(entries: &Vec<InstallEntry>, owner: &str, repo_name: &str) -> (r: Option<
    Vec<String>,
>)
    ensures
        ({
            let ev = entries@.map_values(|e: InstallEntry| entry_view(e));
            if any_entry_matches(ev, owner@, repo_name@) {
                r matches Some(v) && string_views(v@) == all_entry_bins(ev, owner@, repo_name@)
            } else {
                r is None
            }
        }),
{
    let ghost ev = entries@.map_values(|e: InstallEntry| entry_view(e));
    let mut matched = false;
    let mut collected: Vec<String> = Vec::new();
    let mut i: usize = 0;
    while i < entries.len()
        invariant
            i <= entries@.len(),
            ev == entries@.map_values(|e: InstallEntry| entry_view(e)),
            string_views(collected@) == all_entry_bins(ev.take(i as int), owner@, repo_name@),
            matched == any_entry_matches(ev.take(i as int), owner@, repo_name@),
        decreases entries@.len() - i,
    {
        proof {
            assert(ev.take(i + 1).drop_last() =~= ev.take(i as int));
            assert(ev.take(i + 1).last() == entry_view(entries@[i as int]));
        }
        let ghost m_before = matched;
        if cargo_install_entry_matches_repo(entries[i].key.as_str(), owner, repo_name) {
            matched = true;
            match &entries[i].bins {
                Some(b) => add_new_items(&mut collected, b),
                None => {},
            }
            proof {
                assert(ev.take(i + 1)[i as int] == ev[i as int]);
            }
        } else {
            proof {
                if any_entry_matches(ev.take(i + 1), owner@, repo_name@) {
                    let j = choose|j: int| 0 <= j < ev.take(i + 1).len() && entry_matches_repo(
                        (#[trigger] ev.take(i + 1)[j]).0,
                        owner@,
                        repo_name@,
                    );
                    assert(j < i);
                    assert(ev.take(i as int)[j] == ev.take(i + 1)[j]);
                }
            }
        }
        proof {
            if m_before {
                let j = choose|j: int| 0 <= j < ev.take(i as int).len() && entry_matches_repo(
                    (#[trigger] ev.take(i as int)[j]).0,
                    owner@,
                    repo_name@,
                );
                assert(ev.take(i + 1)[j] == ev.take(i as int)[j]);
            }
        }
        i += 1;
    }
    assert(ev.take(entries@.len() as int) =~= ev);
    if matched {
        Some(collected)
    } else {
        None
    }
}

/// The binaries of every install entry for `owner/repo_name` in the
/// `.crates2.json` text `content` (`None` when it could not be read).
pub fn get_cargo_bins_all_inner(content: Option<&str>, owner: &str, repo_name: &str) -> (r: Option<
    Vec<String>,
>)
    ensures
        match content {
            None => r is None,
            Some(c) => match crates2_install_entries(c@) {
                None => r is None,
                Some(entries) => if any_entry_matches(entries, owner@, repo_name@) {
                    r matches Some(v) && string_views(v@) == all_entry_bins(
                        entries,
                        owner@,
                        repo_name@,
                    )
                } else {
                    r is None
                },
            },
        },
{
    let c = match content {
        Some(c) => c,
        None => {
            return None;
        },
    };
    match install_entries_of(c) {
        Some(entries) => bins_of_all_entries(&entries, owner, repo_name),
        None => None,
    }
}

} // verus!
