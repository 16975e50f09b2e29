//! Character-level text utilities with mathematical specifications.
//!
//! Every text operation of the library goes through these functions: the
//! contracts elsewhere speak of the spec functions defined here.
use vstd::prelude::*;

verus! {

// ── spec model ─────────────────────────────────────────────────────────────

/// Unicode `White_Space`, as `char::is_whitespace` defines it.
pub open spec fn is_ws(c: char) -> bool {
    ||| c == '\t'
    ||| c == '\n'
    ||| c == '\u{0B}'
    ||| c == '\u{0C}'
    ||| c == '\r'
    ||| c == ' '
    ||| c == '\u{85}'
    ||| c == '\u{A0}'
    ||| c == '\u{1680}'
    ||| ('\u{2000}' <= c && c <= '\u{200A}')
    ||| c == '\u{2028}'
    ||| c == '\u{2029}'
    ||| c == '\u{202F}'
    ||| c == '\u{205F}'
    ||| c == '\u{3000}'
}

/// `str::trim_start`.
pub open spec fn trim_start(s: Seq<char>) -> Seq<char>
    decreases s.len(),
{
    if s.len() > 0 && is_ws(s[0]) {
        trim_start(s.drop_first())
    } else {
        s
    }
}

/// `str::trim_end`.
pub open spec fn trim_end(s: Seq<char>) -> Seq<char>
    decreases s.len(),
{
    if s.len() > 0 && is_ws(s.last()) {
        trim_end(s.drop_last())
    } else {
        s
    }
}

/// `str::trim`.
pub open spec fn trim(s: Seq<char>) -> Seq<char> {
    trim_end(trim_start(s))
}

pub open spec fn starts_with(s: Seq<char>, p: Seq<char>) -> bool {
    p.len() <= s.len() && s.take(p.len() as int) == p
}

pub open spec fn ends_with(s: Seq<char>, p: Seq<char>) -> bool {
    p.len() <= s.len() && s.skip(s.len() - p.len()) == p
}

/// `p` occurs in `s` starting at index `i`.
pub open spec fn occurs_at(s: Seq<char>, p: Seq<char>, i: int) -> bool {
    0 <= i && i + p.len() <= s.len() && s.subrange(i, i + p.len()) == p
}

/// `str::contains` with a string pattern.
pub open spec fn contains(s: Seq<char>, p: Seq<char>) -> bool {
    exists|i: int| occurs_at(s, p, i)
}

/// Index of the first `c` in `s`, or `s.len()` when there is none.
pub open spec fn first_index(s: Seq<char>, c: char) -> int
    decreases s.len(),
{
    if s.len() == 0 {
        0
    } else if s[0] == c {
        0
    } else {
        1 + first_index(s.drop_first(), c)
    }
}

/// A line with at most one trailing carriage return removed.
pub open spec fn strip_cr(s: Seq<char>) -> Seq<char> {
    if s.len() > 0 && s.last() == '\r' {
        s.drop_last()
    } else {
        s
    }
}

/// `str::lines`: split at `\n` (dropping a `\r` right before it); a final
/// line ending adds no empty line.
pub open spec fn lines(s: Seq<char>) -> Seq<Seq<char>>
    decreases s.len(),
{
    if s.len() == 0 {
        seq![]
    } else {
        let n = first_index(s, '\n');
        proof {
            lemma_first_index_bounds(s, '\n');
        }
        if n < s.len() {
            seq![strip_cr(s.take(n))] + lines(s.skip(n + 1))
        } else {
            seq![s]
        }
    }
}

/// Number of leading characters of `s` that are not whitespace.
pub open spec fn word_len(s: Seq<char>) -> nat
    decreases s.len(),
{
    if s.len() == 0 || is_ws(s[0]) {
        0
    } else {
        1 + word_len(s.drop_first())
    }
}

/// `str::split_whitespace`: the maximal runs of non-whitespace characters.
pub open spec fn words(s: Seq<char>) -> Seq<Seq<char>>
    decreases s.len(),
{
    if s.len() == 0 {
        seq![]
    } else if is_ws(s[0]) {
        words(s.drop_first())
    } else {
        proof {
            lemma_word_len_bounds(s);
        }
        seq![s.take(word_len(s) as int)] + words(s.skip(word_len(s) as int))
    }
}

/// ASCII hex digit, as `char::is_ascii_hexdigit`.
pub open spec fn is_hex(c: char) -> bool {
    ('0' <= c && c <= '9') || ('a' <= c && c <= 'f') || ('A' <= c && c <= 'F')
}

/// Every character of `s` is an ASCII hex digit.
pub open spec fn all_hex(s: Seq<char>) -> bool {
    forall|i: int| 0 <= i < s.len() ==> is_hex(#[trigger] s[i])
}

/// ASCII lower-casing of one character, as `char::to_ascii_lowercase`.
pub open spec fn ascii_lower(c: char) -> char {
    if 'A' <= c && c <= 'Z' {
        ((c as u32) + 32) as char
    } else {
        c
    }
}

/// `str::eq_ignore_ascii_case`.
pub open spec fn eq_ignore_ascii_case(a: Seq<char>, b: Seq<char>) -> bool {
    a.len() == b.len() && forall|i: int| 0 <= i < a.len() ==> ascii_lower(#[trigger] a[i])
        == ascii_lower(b[i])
}

/// The character sequences held by a vector of character vectors.
pub open spec fn views(v: Seq<Vec<char>>) -> Seq<Seq<char>> {
    v.map_values(|l: Vec<char>| l@)
}

// ── lemmas ─────────────────────────────────────────────────────────────────

pub proof fn lemma_views_push(v: Seq<Vec<char>>, x: Vec<char>)
    ensures
        views(v.push(x)) == views(v).push(x@),
{
    assert(views(v.push(x)) =~= views(v).push(x@));
}

pub proof fn lemma_word_len_bounds(s: Seq<char>)
    ensures
        word_len(s) <= s.len(),
        s.len() > 0 && !is_ws(s[0]) ==> word_len(s) > 0,
    decreases s.len(),
{
    if s.len() > 0 && !is_ws(s[0]) {
        lemma_word_len_bounds(s.drop_first());
    }
}

/// The leading word holds no whitespace.
pub proof fn lemma_word_len_no_ws(t: Seq<char>)
    ensures
        forall|i: int| 0 <= i < word_len(t) ==> !is_ws(#[trigger] t[i]),
    decreases t.len(),
{
    lemma_word_len_bounds(t);
    if t.len() > 0 && !is_ws(t[0]) {
        lemma_word_len_no_ws(t.drop_first());
        assert forall|i: int| 0 <= i < word_len(t) implies !is_ws(#[trigger] t[i]) by {
            if i > 0 {
                assert(t[i] == t.drop_first()[i - 1]);
            }
        }
    }
}

/// The leading word of a prefix is the leading word cut at the prefix.
pub proof fn lemma_word_len_take(t: Seq<char>, m: int)
    requires
        0 <= m <= t.len(),
    ensures
        word_len(t.take(m)) == if word_len(t) < m {
            word_len(t) as int
        } else {
            m
        },
    decreases t.len(),
{
    lemma_word_len_bounds(t);
    if m > 0 && !is_ws(t[0]) {
        assert(t.take(m).drop_first() =~= t.drop_first().take(m - 1));
        lemma_word_len_take(t.drop_first(), m - 1);
    }
}

/// The words of a text without its last character: the same words when
/// that character is whitespace, else the same words with the last one
/// shortened by a character (and dropped when that leaves it empty).
pub proof fn lemma_words_drop_last(s: Seq<char>)
    requires
        s.len() > 0,
    ensures
        is_ws(s.last()) ==> words(s.drop_last()) == words(s),
        !is_ws(s.last()) ==> words(s).len() > 0 && words(s.drop_last()) == if words(s).last().len()
            > 1 {
            words(s).drop_last().push(words(s).last().drop_last())
        } else {
            words(s).drop_last()
        },
    decreases s.len(),
{
    let d = s.drop_last();
    if is_ws(s[0]) {
        if s.len() > 1 {
            assert(d.drop_first() =~= s.drop_first().drop_last());
            assert(d[0] == s[0]);
            assert(words(d) == words(d.drop_first()));
            assert(s.drop_first().last() == s.last());
            lemma_words_drop_last(s.drop_first());
        } else {
            assert(d.len() == 0);
            assert(s.drop_first().len() == 0);
            assert(words(d) =~= Seq::<Seq<char>>::empty());
            assert(words(s.drop_first()) =~= Seq::<Seq<char>>::empty());
        }
    } else {
        lemma_word_len_bounds(s);
        let n = word_len(s) as int;
        if n < s.len() {
            let rest = s.skip(n);
            lemma_word_len_take(s, s.len() - 1);
            assert(d =~= s.take(s.len() - 1));
            assert(d.take(n) =~= s.take(n));
            assert(d.skip(n) =~= rest.drop_last());
            assert(rest.last() == s.last());
            lemma_words_drop_last(rest);
            assert(words(s) == seq![s.take(n)] + words(rest));
            assert(words(d) == seq![s.take(n)] + words(rest.drop_last()));
            if !is_ws(s.last()) {
                assert(words(s).last() == words(rest).last());
                if words(rest).last().len() > 1 {
                    assert(words(d) =~= words(s).drop_last().push(words(s).last().drop_last()));
                } else {
                    assert(words(d) =~= words(s).drop_last());
                }
            } else {
                assert(words(d) =~= words(s));
            }
        } else {
            lemma_word_len_no_ws(s);
            assert(!is_ws(s[s.len() - 1]));
            assert(s.skip(n).len() == 0);
            assert(words(s.skip(n)) =~= Seq::<Seq<char>>::empty());
            assert(s.take(n) =~= s);
            assert(words(s) =~= seq![s]);
            if s.len() > 1 {
                lemma_word_len_take(s, s.len() - 1);
                assert(d =~= s.take(s.len() - 1));
                assert(!is_ws(d[0]));
                assert(word_len(d) == d.len());
                assert(d.skip(d.len() as int).len() == 0);
                assert(words(d.skip(d.len() as int)) =~= Seq::<Seq<char>>::empty());
                assert(d.take(d.len() as int) =~= d);
                assert(words(d) =~= seq![d]);
                assert(words(d) =~= words(s).drop_last().push(words(s).last().drop_last()));
            } else {
                assert(d.len() == 0);
                assert(words(d) =~= words(s).drop_last());
            }
        }
    }
}

/// The words of ASCII text are ASCII.
pub proof fn lemma_words_ascii(s: Seq<char>)
    requires
        all_ascii(s),
    ensures
        forall|k: int|
            0 <= k < words(s).len() ==> all_ascii(#[trigger] words(s)[k]) && words(s)[k].len() > 0,
    decreases s.len(),
{
    if s.len() == 0 {
        assert(words(s) =~= Seq::<Seq<char>>::empty());
    } else {
        if is_ws(s[0]) {
            assert(words(s) == words(s.drop_first()));
            assert forall|i: int| 0 <= i < s.drop_first().len() implies (
            #[trigger] s.drop_first()[i]) <= '\x7f' by {
                assert(s.drop_first()[i] == s[i + 1]);
            }
            lemma_words_ascii(s.drop_first());
        } else {
            lemma_word_len_bounds(s);
            let n = word_len(s) as int;
            let rest = s.skip(n);
            assert forall|i: int| 0 <= i < rest.len() implies (#[trigger] rest[i]) <= '\x7f' by {
                assert(rest[i] == s[i + n]);
            }
            lemma_words_ascii(rest);
            assert forall|i: int| 0 <= i < s.take(n).len() implies (#[trigger] s.take(n)[i])
                <= '\x7f' by {
                assert(s.take(n)[i] == s[i]);
            }
            assert(words(s) == seq![s.take(n)] + words(rest));
            assert forall|k: int| 0 <= k < words(s).len() implies all_ascii(
                #[trigger] words(s)[k],
            ) && words(s)[k].len() > 0 by {
                if k > 0 {
                    assert(words(s)[k] == words(rest)[k - 1]);
                }
            }
        }
    }
}

/// A prefix of a pattern occurs wherever the pattern does.
pub proof fn lemma_contains_prefix(s: Seq<char>, p: Seq<char>, k: int)
    requires
        contains(s, p),
        0 <= k <= p.len(),
    ensures
        contains(s, p.take(k)),
{
    let i = choose|i: int| occurs_at(s, p, i);
    assert(s.subrange(i, i + k) =~= p.take(k)) by {
        assert forall|j: int| 0 <= j < k implies s.subrange(i, i + k)[j] == p.take(k)[j] by {
            assert(s.subrange(i, i + p.len())[j] == p[j]);
        }
    }
    assert(occurs_at(s, p.take(k), i));
}

pub proof fn lemma_trim_start_skip(s: Seq<char>, i: int)
    requires
        0 <= i <= s.len(),
        forall|k: int| 0 <= k < i ==> is_ws(#[trigger] s[k]),
    ensures
        trim_start(s) == trim_start(s.skip(i)),
    decreases i,
{
    if i > 0 {
        assert(s.skip(1) =~= s.drop_first());
        lemma_trim_start_skip(s.drop_first(), i - 1);
        assert(s.drop_first().skip(i - 1) =~= s.skip(i));
    } else {
        assert(s.skip(0) =~= s);
    }
}

pub proof fn lemma_trim_end_take(s: Seq<char>, j: int)
    requires
        0 <= j <= s.len(),
        forall|k: int| j <= k < s.len() ==> is_ws(#[trigger] s[k]),
    ensures
        trim_end(s) == trim_end(s.take(j)),
    decreases s.len() - j,
{
    if j < s.len() {
        assert(s.drop_last() =~= s.take(s.len() - 1));
        lemma_trim_end_take(s.drop_last(), j);
        assert(s.drop_last().take(j) =~= s.take(j));
    } else {
        assert(s.take(j) =~= s);
    }
}

pub proof fn lemma_first_index_bounds(s: Seq<char>, c: char)
    ensures
        0 <= first_index(s, c) <= s.len(),
        first_index(s, c) < s.len() ==> s[first_index(s, c)] == c,
        forall|k: int| 0 <= k < first_index(s, c) ==> s[k] != c,
    decreases s.len(),
{
    if s.len() > 0 && s[0] != c {
        lemma_first_index_bounds(s.drop_first(), c);
        assert forall|k: int| 0 <= k < first_index(s, c) implies s[k] != c by {
            if k > 0 {
                assert(s[k] == s.drop_first()[k - 1]);
            }
        }
    }
}

pub proof fn lemma_first_index_at(s: Seq<char>, c: char, n: int)
    requires
        0 <= n <= s.len(),
        n < s.len() ==> s[n] == c,
        forall|k: int| 0 <= k < n ==> s[k] != c,
    ensures
        first_index(s, c) == n,
    decreases n,
{
    if n > 0 {
        lemma_first_index_at(s.drop_first(), c, n - 1);
    }
}

pub proof fn lemma_word_len_at(s: Seq<char>, n: int)
    requires
        0 <= n <= s.len(),
        n < s.len() ==> is_ws(s[n]),
        forall|k: int| 0 <= k < n ==> !is_ws(#[trigger] s[k]),
    ensures
        word_len(s) == n,
    decreases n,
{
    if n > 0 {
        lemma_word_len_at(s.drop_first(), n - 1);
    }
}

// ── exec ───────────────────────────────────────────────────────────────────

/// `String::push`.
#[verifier::external_body]
pub(crate) fn push_char(s: &mut String, c: char)
    ensures
        final(s)@ == old(s)@.push(c),
{
    s.push(c);
}

/// `String::push_str`.
#[verifier::external_body]
pub(crate) fn push_str(s: &mut String, t: &str)
    ensures
        final(s)@ == old(s)@ + t@,
{
    s.push_str(t);
}

/// Every character of `s` is ASCII.
pub open spec fn all_ascii(s: Seq<char>) -> bool {
    forall|i: int| 0 <= i < s.len() ==> (#[trigger] s[i]) <= '\x7f'
}

/// ASCII text lower-cased one character at a time.
pub open spec fn ascii_lowercase(s: Seq<char>) -> Seq<char> {
    s.map_values(|c: char| ascii_lower(c))
}

/// What `str::to_lowercase` returns for a text that is not all ASCII.
pub uninterp spec fn unicode_lowercase(s: Seq<char>) -> Seq<char>;

/// What `str::to_lowercase` returns for a string: on ASCII text each
/// character lower-cased on its own (`A`-`Z` to `a`-`z`, the rest kept).
pub open spec fn lowercase(s: Seq<char>) -> Seq<char> {
    if all_ascii(s) {
        ascii_lowercase(s)
    } else {
        unicode_lowercase(s)
    }
}

/// `str::to_lowercase`: Unicode lower-casing, a function of the string alone;
/// on ASCII text, ASCII lower-casing character by character.
#[verifier::external_body]
pub(crate) fn to_lowercase(s: &str) -> (r: String)
    ensures
        all_ascii(s@) ==> r@ == ascii_lowercase(s@),
        !all_ascii(s@) ==> r@ == unicode_lowercase(s@),
{
    s.to_lowercase()
}

/// `String::pop`: removes and returns the last character, if any.
#[verifier::external_body]
pub(crate) fn pop_char(s: &mut String) -> (r: Option<char>)
    ensures
        old(s)@.len() == 0 ==> r is None && final(s)@ == old(s)@,
        old(s)@.len() > 0 ==> r == Some(old(s)@.last()) && final(s)@ == old(s)@.drop_last(),
{
    s.pop()
}

/// What `{:?}` prints for a string: quoted and escaped.
pub uninterp spec fn debug_str(s: Seq<char>) -> Seq<char>;

/// `format!("{:?}", s)` for a string.
#[verifier::external_body]
pub(crate) fn debug_string(s: &str) -> (r: String)
    ensures
        r@ == debug_str(s@),
{
    format!("{s:?}")
}

/// The items of a list as `{:?}` prints them, each quoted and escaped,
/// separated by `, `.
pub open spec fn debug_items(v: Seq<Seq<char>>) -> Seq<char>
    decreases v.len(),
{
    if v.len() == 0 {
        seq![]
    } else if v.len() == 1 {
        debug_str(v[0])
    } else {
        debug_items(v.drop_last()) + ", "@ + debug_str(v.last())
    }
}

/// What `{:?}` prints for a list of strings: `[`, the items, `]`.
pub open spec fn debug_str_list(v: Seq<Seq<char>>) -> Seq<char> {
    "["@ + debug_items(v) + "]"@
}

/// `format!("{:?}", v)` for a list of strings.
#[verifier::external_body]
pub(crate) fn debug_string_list(v: &[String]) -> (r: String)
    ensures
        r@ == debug_str_list(v@.map_values(|s: String| s@)),
{
    format!("{v:?}")
}

/// The characters of a string slice.
pub fn chars_of(s: &str) -> (v: Vec<char>)
    ensures
        v@ == s@,
{
    let mut v: Vec<char> = Vec::new();
    for c in it: s.chars()
        invariant
            v@ == it.seq().take(it.index() as int),
            it.seq() == s@,
    {
        v.push(c);
    }
    v
}

/// A string made of the given characters.
pub fn string_of(v: &[char]) -> (s: String)
    ensures
        s@ == v@,
{
    let mut s = String::new();
    let mut i: usize = 0;
    while i < v.len()
        invariant
            i <= v.len(),
            s@ == v@.take(i as int),
        decreases v.len() - i,
    {
        push_char(&mut s, v[i]);
        i += 1;
        assert(v@.take(i as int) =~= v@.take(i - 1).push(v@[i - 1]));
    }
    assert(v@.take(v.len() as int) =~= v@);
    s
}

/// `char::is_whitespace`.
pub fn is_ws_char(c: char) -> (b: bool)
    ensures
        b == is_ws(c),
{
    c == '\t' || c == '\n' || c == '\u{0B}' || c == '\u{0C}' || c == '\r' || c == ' ' || c
        == '\u{85}' || c == '\u{A0}' || c == '\u{1680}' || ('\u{2000}' <= c && c <= '\u{200A}')
        || c == '\u{2028}' || c == '\u{2029}' || c == '\u{202F}' || c == '\u{205F}' || c
        == '\u{3000}'
}

/// `char::is_ascii_hexdigit`.
pub fn is_hex_char(c: char) -> (b: bool)
    ensures
        b == is_hex(c),
{
    ('0' <= c && c <= '9') || ('a' <= c && c <= 'f') || ('A' <= c && c <= 'F')
}

/// `str::trim` on characters.
pub fn trim_chars(v: &[char]) -> (r: Vec<char>)
    ensures
        r@ == trim(v@),
{
    let mut i: usize = 0;
    while i < v.len() && is_ws_char(v[i])
        invariant
            i <= v.len(),
            forall|k: int| 0 <= k < i ==> is_ws(#[trigger] v@[k]),
        decreases v.len() - i,
    {
        i += 1;
    }
    proof {
        lemma_trim_start_skip(v@, i as int);
    }
    let ghost rest = v@.skip(i as int);
    assert(trim_start(rest) == rest);
    let mut j: usize = v.len();
    while j > i && is_ws_char(v[j - 1])
        invariant
            i <= j <= v.len(),
            forall|k: int| j <= k < v.len() ==> is_ws(#[trigger] v@[k]),
        decreases j,
    {
        j -= 1;
    }
    proof {
        lemma_trim_end_take(rest, j - i);
        assert(rest.take(j - i) =~= v@.subrange(i as int, j as int));
        if j > i {
            assert(!is_ws(v@.subrange(i as int, j as int).last()));
        }
    }
    slice_sub(v, i, j)
}

/// A copy of `v[from..to]`.
pub fn slice_sub(v: &[char], from: usize, to: usize) -> (r: Vec<char>)
    requires
        from <= to <= v.len(),
    ensures
        r@ == v@.subrange(from as int, to as int),
{
    let mut r: Vec<char> = Vec::new();
    let mut k: usize = from;
    while k < to
        invariant
            from <= k <= to <= v.len(),
            r@ == v@.subrange(from as int, k as int),
        decreases to - k,
    {
        r.push(v[k]);
        k += 1;
        assert(r@ =~= v@.subrange(from as int, k as int));
    }
    r
}

/// `str::trim`.
pub fn trim_str(s: &str) -> (r: String)
    ensures
        r@ == trim(s@),
{
    let v = chars_of(s);
    let t = trim_chars(&v);
    string_of(&t)
}

/// Character sequences are equal.
pub fn chars_eq(a: &[char], b: &[char]) -> (r: bool)
    ensures
        r == (a@ == b@),
{
    if a.len() != b.len() {
        return false;
    }
    let mut i: usize = 0;
    while i < a.len()
        invariant
            a.len() == b.len(),
            i <= a.len(),
            forall|k: int| 0 <= k < i ==> a@[k] == b@[k],
        decreases a.len() - i,
    {
        if a[i] != b[i] {
            return false;
        }
        i += 1;
    }
    assert(a@ =~= b@);
    true
}

/// Strings are equal.
pub fn str_eq(a: &str, b: &str) -> (r: bool)
    ensures
        r == (a@ == b@),
{
    let va = chars_of(a);
    let vb = chars_of(b);
    chars_eq(&va, &vb)
}

/// `p` occurs in `v` at index `i`.
pub fn occurs_at_exec(v: &[char], p: &[char], i: usize) -> (r: bool)
    ensures
        r == occurs_at(v@, p@, i as int),
{
    if i > v.len() || p.len() > v.len() - i {
        return false;
    }
    let mut k: usize = 0;
    while k < p.len()
        invariant
            i + p.len() <= v.len(),
            k <= p.len(),
            forall|m: int| 0 <= m < k ==> v@[i + m] == p@[m],
        decreases p.len() - k,
    {
        if v[i + k] != p[k] {
            assert(v@.subrange(i as int, i + p.len())[k as int] != p@[k as int]);
            return false;
        }
        k += 1;
    }
    assert(v@.subrange(i as int, i + p.len()) =~= p@);
    true
}

/// `str::starts_with` on characters.
pub fn starts_with_chars(v: &[char], p: &[char]) -> (r: bool)
    ensures
        r == starts_with(v@, p@),
{
    let r = occurs_at_exec(v, p, 0);
    assert(v@.take(p.len() as int) =~= v@.subrange(0, p.len() as int));
    r
}

/// `str::ends_with` on characters.
pub fn ends_with_chars(v: &[char], p: &[char]) -> (r: bool)
    ensures
        r == ends_with(v@, p@),
{
    if p.len() > v.len() {
        return false;
    }
    let r = occurs_at_exec(v, p, v.len() - p.len());
    assert(v@.skip(v.len() - p.len()) =~= v@.subrange(v.len() - p.len(), v.len() as int));
    r
}

/// Index of the first occurrence of `p` in `v`.
pub fn find_chars(v: &[char], p: &[char]) -> (r: Option<usize>)
    ensures
        match r {
            Some(i) => occurs_at(v@, p@, i as int) && forall|j: int|
                0 <= j < i ==> !occurs_at(v@, p@, j),
            None => !contains(v@, p@),
        },
{
    if p.len() > v.len() {
        return None;
    }
    let limit = v.len() - p.len();
    let mut i: usize = 0;
    loop
        invariant
            limit == v.len() - p.len(),
            i <= limit,
            forall|j: int| 0 <= j < i ==> !occurs_at(v@, p@, j),
        decreases limit - i,
    {
        if occurs_at_exec(v, p, i) {
            return Some(i);
        }
        if i == limit {
            assert forall|j: int| !occurs_at(v@, p@, j) by {
                if 0 <= j <= i {
                }
            }
            return None;
        }
        i += 1;
    }
}

/// `str::contains` on characters.
pub fn contains_chars(v: &[char], p: &[char]) -> (r: bool)
    ensures
        r == contains(v@, p@),
{
    match find_chars(v, p) {
        Some(_) => true,
        None => false,
    }
}

/// `str::contains`.
pub fn str_contains(s: &str, p: &str) -> (r: bool)
    ensures
        r == contains(s@, p@),
{
    let v = chars_of(s);
    let q = chars_of(p);
    contains_chars(&v, &q)
}

/// `str::lines` on characters.
pub fn lines_of(v: &[char]) -> (r: Vec<Vec<char>>)
    ensures
        views(r@) == lines(v@),
{
    let mut out: Vec<Vec<char>> = Vec::new();
    let mut start: usize = 0;
    let mut i: usize = 0;
    assert(v@.skip(0) =~= v@);
    assert(views(out@) + lines(v@) =~= lines(v@));
    while i < v.len()
        invariant
            start <= i <= v.len(),
            lines(v@) == views(out@) + lines(v@.skip(start as int)),
            forall|k: int| start <= k < i ==> v@[k] != '\n',
        decreases v.len() - i,
    {
        if v[i] == '\n' {
            let mut line = slice_sub(v, start, i);
            if line.len() > 0 && line[line.len() - 1] == '\r' {
                line.pop();
            }
            proof {
                let rest = v@.skip(start as int);
                lemma_first_index_at(rest, '\n', i - start);
                assert(rest.take(i - start) =~= v@.subrange(start as int, i as int));
                assert(rest.skip(i - start + 1) =~= v@.skip(i + 1));
                assert(line@ == strip_cr(v@.subrange(start as int, i as int)));
            }
            let ghost before = out@;
            out.push(line);
            proof {
                lemma_views_push(before, line);
            }
            assert(views(before) + lines(v@.skip(start as int)) =~= views(out@) + lines(
                v@.skip(i + 1),
            ));
            start = i + 1;
        }
        i += 1;
    }
    if start < v.len() {
        let line = slice_sub(v, start, v.len());
        proof {
            let rest = v@.skip(start as int);
            lemma_first_index_at(rest, '\n', rest.len() as int);
            assert(rest =~= v@.subrange(start as int, v.len() as int));
        }
        let ghost before = out@;
        out.push(line);
        proof {
            lemma_views_push(before, line);
        }
    } else {
        assert(v@.skip(start as int) =~= Seq::<char>::empty());
    }
    assert(views(out@) =~= views(out@) + Seq::<Seq<char>>::empty());
    out
}

/// `str::split_whitespace` on characters.
pub fn words_of(v: &[char]) -> (r: Vec<Vec<char>>)
    ensures
        views(r@) == words(v@),
{
    let mut out: Vec<Vec<char>> = Vec::new();
    let mut i: usize = 0;
    assert(v@.skip(0) =~= v@);
    assert(views(out@) + words(v@) =~= words(v@));
    while i < v.len()
        invariant
            i <= v.len(),
            words(v@) == views(out@) + words(v@.skip(i as int)),
        decreases v.len() - i,
    {
        if is_ws_char(v[i]) {
            assert(v@.skip(i as int).drop_first() =~= v@.skip(i + 1));
            i += 1;
        } else {
            let mut j: usize = i;
            while j < v.len() && !is_ws_char(v[j])
                invariant
                    i <= j <= v.len(),
                    forall|k: int| i <= k < j ==> !is_ws(#[trigger] v@[k]),
                decreases v.len() - j,
            {
                j += 1;
            }
            let word = slice_sub(v, i, j);
            proof {
                let rest = v@.skip(i as int);
                assert forall|k: int| 0 <= k < j - i implies !is_ws(#[trigger] rest[k]) by {
                    assert(rest[k] == v@[i + k]);
                }
                lemma_word_len_at(rest, j - i);
                assert(rest.take(j - i) =~= word@);
                assert(rest.skip(j - i) =~= v@.skip(j as int));
            }
            let ghost before = out@;
            out.push(word);
            proof {
                lemma_views_push(before, word);
            }
            assert(views(before) + words(v@.skip(i as int)) =~= views(out@) + words(
                v@.skip(j as int),
            ));
            i = j;
        }
    }
    assert(v@.skip(i as int) =~= Seq::<char>::empty());
    assert(views(out@) =~= views(out@) + Seq::<Seq<char>>::empty());
    out
}

/// `char::to_ascii_lowercase`.
pub fn ascii_lower_char(c: char) -> (r: char)
    ensures
        r == ascii_lower(c),
{
    if 'A' <= c && c <= 'Z' {
        let code: u32 = c as u32;
        char_from_ascii_code(code + 32)
    } else {
        c
    }
}

fn char_from_ascii_code(code: u32) -> (c: char)
    requires
        code < 128,
    ensures
        c == code as char,
{
    let b: u8 = code as u8;
    b as char
}

/// `str::eq_ignore_ascii_case`.
pub fn str_eq_ignore_ascii_case(a: &str, b: &str) -> (r: bool)
    ensures
        r == eq_ignore_ascii_case(a@, b@),
{
    let va = chars_of(a);
    let vb = chars_of(b);
    if va.len() != vb.len() {
        return false;
    }
    let mut i: usize = 0;
    while i < va.len()
        invariant
            va.len() == vb.len(),
            va@ == a@,
            vb@ == b@,
            i <= va.len(),
            forall|k: int| 0 <= k < i ==> ascii_lower(#[trigger] va@[k]) == ascii_lower(vb@[k]),
        decreases va.len() - i,
    {
        if ascii_lower_char(va[i]) != ascii_lower_char(vb[i]) {
            return false;
        }
        i += 1;
    }
    true
}

} // verus!
