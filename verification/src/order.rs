//! Lexicographic order of strings (as `str::cmp` orders them: by code point,
//! which is the order of their UTF-8 bytes) and a stable descending sort.
use vstd::prelude::*;

use crate::text::chars_of;

verus! {

/// `a < b` lexicographically, comparing code points.
pub open spec fn str_less(a: Seq<char>, b: Seq<char>) -> bool
    decreases a.len(),
{
    if a.len() == 0 {
        b.len() > 0
    } else if b.len() == 0 {
        false
    } else if a[0] != b[0] {
        (a[0] as int) < (b[0] as int)
    } else {
        str_less(a.drop_first(), b.drop_first())
    }
}

pub proof fn lemma_str_less_irreflexive(a: Seq<char>)
    ensures
        !str_less(a, a),
    decreases a.len(),
{
    if a.len() > 0 {
        lemma_str_less_irreflexive(a.drop_first());
    }
}

pub proof fn lemma_str_less_transitive(a: Seq<char>, b: Seq<char>, c: Seq<char>)
    requires
        str_less(a, b),
        str_less(b, c),
    ensures
        str_less(a, c),
    decreases a.len(),
{
    if a.len() > 0 && b.len() > 0 && c.len() > 0 {
        if a[0] == b[0] && b[0] == c[0] {
            lemma_str_less_transitive(a.drop_first(), b.drop_first(), c.drop_first());
        }
    }
}

pub proof fn lemma_str_less_total(a: Seq<char>, b: Seq<char>)
    ensures
        a == b || str_less(a, b) || str_less(b, a),
    decreases a.len(),
{
    if a.len() == 0 && b.len() == 0 {
        assert(a =~= b);
    } else if a.len() > 0 && b.len() > 0 && a[0] != b[0] {
    } else if a.len() > 0 && b.len() > 0 && a[0] == b[0] {
        lemma_str_less_total(a.drop_first(), b.drop_first());
        if a.drop_first() == b.drop_first() {
            assert(a =~= seq![a[0]] + a.drop_first());
            assert(b =~= seq![b[0]] + b.drop_first());
            assert(a =~= b);
        }
    }
}

/// `a < b` for strings.
pub fn str_lt(a: &str, b: &str) -> (r: bool)
    ensures
        r == str_less(a@, b@),
{
    let va = chars_of(a);
    let vb = chars_of(b);
    let mut i: usize = 0;
    assert(a@.skip(0) =~= a@);
    assert(b@.skip(0) =~= b@);
    while i < va.len() && i < vb.len() && va[i] == vb[i]
        invariant
            i <= va@.len(),
            i <= vb@.len(),
            va@ == a@,
            vb@ == b@,
            str_less(a@, b@) == str_less(a@.skip(i as int), b@.skip(i as int)),
        decreases va@.len() - i,
    {
        proof {
            assert(a@.skip(i as int).drop_first() =~= a@.skip(i + 1));
            assert(b@.skip(i as int).drop_first() =~= b@.skip(i + 1));
        }
        i += 1;
    }
    if i == va.len() {
        i < vb.len()
    } else if i == vb.len() {
        false
    } else {
        va[i] < vb[i]
    }
}

/// `perm` lists each index below `n` once.
pub open spec fn is_index_permutation(perm: Seq<int>, n: int) -> bool {
    &&& perm.len() == n
    &&& forall|p: int| 0 <= p < n ==> 0 <= #[trigger] perm[p] < n
    &&& forall|p: int, q: int| 0 <= p < q < n ==> #[trigger] perm[p] != #[trigger] perm[q]
}

/// What entries are sorted by: a group (lower first), a text (greater
/// first) and a tie-break text (lower first).
pub struct SortKey {
    pub group: i128,
    pub text: String,
    pub tie: String,
}

/// The view of a sort key.
pub open spec fn key_view(k: SortKey) -> (int, Seq<char>, Seq<char>) {
    (k.group as int, k.text@, k.tie@)
}

/// The views of sort keys.
pub open spec fn key_views(ks: Seq<SortKey>) -> Seq<(int, Seq<char>, Seq<char>)> {
    ks.map_values(|k: SortKey| key_view(k))
}

/// `a` comes before `b`: a lower group first, within a group the greater
/// text first, then the lower tie-break text.
pub open spec fn precedes(a: (int, Seq<char>, Seq<char>), b: (int, Seq<char>, Seq<char>)) -> bool {
    a.0 < b.0 || (a.0 == b.0 && (str_less(b.1, a.1) || (a.1 == b.1 && str_less(a.2, b.2))))
}

pub proof fn lemma_precedes_irreflexive(a: (int, Seq<char>, Seq<char>))
    ensures
        !precedes(a, a),
{
    lemma_str_less_irreflexive(a.1);
    lemma_str_less_irreflexive(a.2);
}

pub proof fn lemma_precedes_transitive(
    a: (int, Seq<char>, Seq<char>),
    b: (int, Seq<char>, Seq<char>),
    c: (int, Seq<char>, Seq<char>),
)
    requires
        precedes(a, b),
        precedes(b, c),
    ensures
        precedes(a, c),
{
    if a.0 == b.0 && b.0 == c.0 {
        if str_less(b.1, a.1) && str_less(c.1, b.1) {
            lemma_str_less_transitive(c.1, b.1, a.1);
        } else if a.1 == b.1 && b.1 == c.1 {
            lemma_str_less_transitive(a.2, b.2, c.2);
        }
    }
}

pub proof fn lemma_precedes_total(a: (int, Seq<char>, Seq<char>), b: (int, Seq<char>, Seq<char>))
    ensures
        a == b || precedes(a, b) || precedes(b, a),
{
    lemma_str_less_total(a.1, b.1);
    lemma_str_less_total(a.2, b.2);
}

/// `perm` orders `keys` by `precedes`, equal keys keeping their original
/// order: what a stable sort gives.
pub open spec fn sorted_stable(keys: Seq<(int, Seq<char>, Seq<char>)>, perm: Seq<int>) -> bool {
    &&& is_index_permutation(perm, keys.len() as int)
    &&& forall|p: int, q: int|
        0 <= p < q < perm.len() ==> !precedes(keys[#[trigger] perm[q]], keys[#[trigger] perm[p]])
            && (keys[perm[p]] == keys[perm[q]] ==> perm[p] < perm[q])
}

/// The first `n` indices sorted stably.
pub open spec fn sorted_prefix(keys: Seq<(int, Seq<char>, Seq<char>)>, perm: Seq<int>, n: int) -> bool {
    &&& is_index_permutation(perm, n)
    &&& forall|p: int, q: int|
        0 <= p < q < perm.len() ==> !precedes(keys[#[trigger] perm[q]], keys[#[trigger] perm[p]])
            && (keys[perm[p]] == keys[perm[q]] ==> perm[p] < perm[q])
}

proof fn lemma_insert_keeps_order(
    keys: Seq<(int, Seq<char>, Seq<char>)>,
    perm: Seq<int>,
    n: int,
    pos: int,
)
    requires
        0 <= n < keys.len(),
        sorted_prefix(keys, perm, n),
        0 <= pos <= n,
        forall|q: int| 0 <= q < pos ==> !precedes(keys[n], keys[perm[q]]),
        pos < n ==> precedes(keys[n], keys[perm[pos]]),
    ensures
        sorted_prefix(keys, perm.insert(pos, n), n + 1),
{
    let np = perm.insert(pos, n);
    assert forall|p: int| 0 <= p < n + 1 implies 0 <= #[trigger] np[p] < n + 1 by {
        if p < pos {
            assert(np[p] == perm[p]);
        } else if p > pos {
            assert(np[p] == perm[p - 1]);
        }
    }
    assert forall|p: int, q: int| 0 <= p < q < n + 1 implies #[trigger] np[p] != #[trigger] np[q] by {
        if p < pos && q < pos {
            assert(np[p] == perm[p] && np[q] == perm[q]);
        } else if p < pos && q == pos {
            assert(np[p] == perm[p]);
        } else if p < pos && q > pos {
            assert(np[p] == perm[p] && np[q] == perm[q - 1]);
        } else if p == pos {
            assert(np[q] == perm[q - 1]);
        } else {
            assert(np[p] == perm[p - 1] && np[q] == perm[q - 1]);
        }
    }
    assert forall|p: int, q: int| 0 <= p < q < np.len() implies !precedes(
        keys[#[trigger] np[q]],
        keys[#[trigger] np[p]],
    ) && (keys[np[p]] == keys[np[q]] ==> np[p] < np[q]) by {
        if q < pos {
            assert(np[p] == perm[p] && np[q] == perm[q]);
        } else if q == pos {
            assert(np[p] == perm[p]);
            assert(np[q] == n);
        } else if p < pos {
            assert(np[p] == perm[p] && np[q] == perm[q - 1]);
        } else if p == pos {
            assert(np[p] == n);
            assert(np[q] == perm[q - 1]);
            let k = perm[q - 1];
            let kp = perm[pos];
            assert(precedes(keys[n], keys[kp]));
            if q - 1 > pos {
                assert(!precedes(keys[perm[q - 1]], keys[perm[pos]]));
                lemma_precedes_total(keys[kp], keys[k]);
                if keys[kp] != keys[k] {
                    lemma_precedes_transitive(keys[n], keys[kp], keys[k]);
                }
            }
            assert(precedes(keys[n], keys[k]));
            if precedes(keys[k], keys[n]) {
                lemma_precedes_transitive(keys[n], keys[k], keys[n]);
                lemma_precedes_irreflexive(keys[n]);
            }
            lemma_precedes_irreflexive(keys[n]);
        } else {
            assert(np[p] == perm[p - 1] && np[q] == perm[q - 1]);
        }
    }
}

/// Whether key `a` comes before key `b`.
pub fn precedes_exec(a: &SortKey, b: &SortKey) -> (r: bool)
    ensures
        r == precedes(key_view(*a), key_view(*b)),
{
    a.group < b.group || (a.group == b.group && (str_lt(b.text.as_str(), a.text.as_str()) || (
    crate::text::str_eq(a.text.as_str(), b.text.as_str()) && str_lt(
        a.tie.as_str(),
        b.tie.as_str(),
    ))))
}

/// The indices of the entries in stable order of their keys.
pub fn sort_indices_stable(keys: &Vec<SortKey>) -> (r: Vec<usize>)
    ensures
        sorted_stable(key_views(keys@), r@.map_values(|i: usize| i as int)),
{
    let ghost ks = key_views(keys@);
    let mut perm: Vec<usize> = Vec::new();
    let mut n: usize = 0;
    while n < keys.len()
        invariant
            n <= keys@.len(),
            ks == key_views(keys@),
            sorted_prefix(ks, perm@.map_values(|i: usize| i as int), n as int),
            forall|p: int| 0 <= p < perm@.len() ==> (#[trigger] perm@[p] as int) < n,
        decreases keys@.len() - n,
    {
        let ghost pv = perm@.map_values(|i: usize| i as int);
        let mut pos: usize = 0;
        while pos < perm.len() && !precedes_exec(&keys[n], &keys[perm[pos]])
            invariant
                n < keys@.len(),
                pos <= perm@.len(),
                perm@.len() == n,
                pv == perm@.map_values(|i: usize| i as int),
                ks == key_views(keys@),
                sorted_prefix(ks, pv, n as int),
                forall|p: int| 0 <= p < perm@.len() ==> (#[trigger] perm@[p] as int) < n,
                forall|q: int| 0 <= q < pos ==> !precedes(ks[n as int], ks[pv[q]]),
            decreases perm@.len() - pos,
        {
            assert(pv[pos as int] == perm@[pos as int] as int);
            pos += 1;
        }
        proof {
            if pos < n {
                assert(pv[pos as int] == perm@[pos as int] as int);
            }
            lemma_insert_keeps_order(ks, pv, n as int, pos as int);
        }
        perm.insert(pos, n);
        proof {
            assert(perm@.map_values(|i: usize| i as int) =~= pv.insert(pos as int, n as int));
            assert forall|p: int| 0 <= p < perm@.len() implies (#[trigger] perm@[p] as int) < n + 1 by {
                assert(perm@.map_values(|i: usize| i as int)[p] == perm@[p] as int);
            }
        }
        n += 1;
    }
    perm
}

/// Every index below `n` occurs in a permutation of the indices below `n`.
pub proof fn lemma_permutation_onto(perm: Seq<int>, n: int, i: int)
    requires
        is_index_permutation(perm, n),
        0 <= i < n,
    ensures
        exists|k: int| 0 <= k < perm.len() && perm[k] == i,
{
    broadcast use vstd::seq_lib::seq_to_set_is_finite;

    assert(perm.no_duplicates()) by {
        assert forall|p: int, q: int|
            0 <= p < perm.len() && 0 <= q < perm.len() && p != q implies perm[p] != perm[q] by {
            if p < q {
                assert(perm[p] != perm[q]);
            } else {
                assert(perm[q] != perm[p]);
            }
        }
    }
    perm.unique_seq_to_set();
    let values = perm.to_set();
    let range = vstd::set_lib::set_int_range(0, n);
    vstd::set_lib::lemma_int_range(0, n);
    assert(values.subset_of(range)) by {
        assert forall|x: int| values.contains(x) implies range.contains(x) by {
            let k = choose|k: int| 0 <= k < perm.len() && perm[k] == x;
            assert(0 <= perm[k] < n);
        }
    }
    vstd::set_lib::lemma_subset_equality(values, range);
    assert(range.contains(i));
    assert(values.contains(i));
}

} // verus!
