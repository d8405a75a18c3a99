//! Character-level text utilities shared by the parsers and renderers.
//!
//! Every routine works on the characters of a string (`Seq<char>` in specs,
//! `Vec<char>` in code), so each is stated against a plain mathematical model.

use vstd::prelude::*;
use vstd::utf8::{decode_utf8, encode_utf8, valid_utf8};

verus! {

// ---------------------------------------------------------------------------
// Whitespace and trimming
// ---------------------------------------------------------------------------

/// Unicode `White_Space`, the property that `char::is_whitespace` tests.
pub open spec fn is_ws(c: char) -> bool {
    ||| ('\u{9}' <= c && c <= '\u{d}')
    ||| c == ' '
    ||| c == '\u{85}'
    ||| c == '\u{a0}'
    ||| c == '\u{1680}'
    ||| ('\u{2000}' <= c && c <= '\u{200a}')
    ||| c == '\u{2028}'
    ||| c == '\u{2029}'
    ||| c == '\u{202f}'
    ||| c == '\u{205f}'
    ||| c == '\u{3000}'
}

/// The characters stripped by `trim_matches` on a linker symbol: backtick,
/// apostrophe, double quote and space.
pub open spec fn is_sym_quote(c: char) -> bool {
    c == '`' || c == '\'' || c == '"' || c == ' '
}

/// Which set of characters a trim removes.
pub enum Strip {
    Whitespace,
    SymbolQuotes,
    Brackets,
}

pub open spec fn strips(k: Strip, c: char) -> bool {
    match k {
        Strip::Whitespace => is_ws(c),
        Strip::SymbolQuotes => is_sym_quote(c),
        Strip::Brackets => c == '[' || c == ']',
    }
}

pub fn strips_exec(k: &Strip, c: char) -> (b: bool)
    ensures
        b == strips(*k, c),
{
    match k {
        Strip::Whitespace => {
            ('\u{9}' <= c && c <= '\u{d}') || c == ' ' || c == '\u{85}' || c == '\u{a0}' || c
                == '\u{1680}' || ('\u{2000}' <= c && c <= '\u{200a}') || c == '\u{2028}' || c
                == '\u{2029}' || c == '\u{202f}' || c == '\u{205f}' || c == '\u{3000}'
        },
        Strip::SymbolQuotes => c == '`' || c == '\'' || c == '"' || c == ' ',
        Strip::Brackets => c == '[' || c == ']',
    }
}

/// `s` without its leading characters of kind `k`.
pub open spec fn trim_start_by(k: Strip, s: Seq<char>) -> Seq<char>
    decreases s.len(),
{
    if s.len() > 0 && strips(k, s[0]) {
        trim_start_by(k, s.drop_first())
    } else {
        s
    }
}

/// `s` without its trailing characters of kind `k`.
pub open spec fn trim_end_by(k: Strip, s: Seq<char>) -> Seq<char>
    decreases s.len(),
{
    if s.len() > 0 && strips(k, s.last()) {
        trim_end_by(k, s.drop_last())
    } else {
        s
    }
}

/// `s` without leading and trailing characters of kind `k`.
pub open spec fn trim_by(k: Strip, s: Seq<char>) -> Seq<char> {
    trim_end_by(k, trim_start_by(k, s))
}

/// `str::trim`: `s` without leading and trailing whitespace.
pub open spec fn trim_spec(s: Seq<char>) -> Seq<char> {
    trim_by(Strip::Whitespace, s)
}

proof fn lemma_trim_start_skip(k: Strip, s: Seq<char>, i: int)
    requires
        0 <= i <= s.len(),
        forall|j: int| 0 <= j < i ==> strips(k, #[trigger] s[j]),
    ensures
        trim_start_by(k, s) == trim_start_by(k, s.subrange(i, s.len() as int)),
    decreases i,
{
    if i > 0 {
        assert(s.drop_first().subrange(i - 1, s.drop_first().len() as int) =~= s.subrange(
            i,
            s.len() as int,
        ));
        lemma_trim_start_skip(k, s.drop_first(), i - 1);
    } else {
        assert(s.subrange(0, s.len() as int) =~= s);
    }
}

proof fn lemma_trim_end_take(k: Strip, s: Seq<char>, i: int)
    requires
        0 <= i <= s.len(),
        forall|j: int| i <= j < s.len() ==> strips(k, #[trigger] s[j]),
    ensures
        trim_end_by(k, s) == trim_end_by(k, s.subrange(0, i)),
    decreases s.len() - i,
{
    if i < s.len() {
        assert(s.drop_last().subrange(0, i) =~= s.subrange(0, i));
        lemma_trim_end_take(k, s.drop_last(), i);
    } else {
        assert(s.subrange(0, s.len() as int) =~= s);
    }
}

/// The characters of `v` between `lo` and `hi`.
pub fn slice(v: &Vec<char>, lo: usize, hi: usize) -> (r: Vec<char>)
    requires
        lo <= hi <= v.len(),
    ensures
        r@ == v@.subrange(lo as int, hi as int),
{
    let mut r: Vec<char> = Vec::new();
    let mut i: usize = lo;
    while i < hi
        invariant
            lo <= i <= hi <= v.len(),
            r@ == v@.subrange(lo as int, i as int),
        decreases hi - i,
    {
        r.push(v[i]);
        i += 1;
        assert(r@ =~= v@.subrange(lo as int, i as int));
    }
    r
}

/// Trims characters of kind `k` from both ends of `v`.
pub fn trim_chars(k: &Strip, v: &Vec<char>) -> (r: Vec<char>)
    ensures
        r@ == trim_by(*k, v@),
{
    let mut lo: usize = 0;
    while lo < v.len() && strips_exec(k, v[lo])
        invariant
            lo <= v.len(),
            forall|j: int| 0 <= j < lo ==> strips(*k, #[trigger] v@[j]),
        decreases v.len() - lo,
    {
        lo += 1;
    }
    let ghost mid = v@.subrange(lo as int, v.len() as int);
    proof {
        lemma_trim_start_skip(*k, v@, lo as int);
        assert(mid.len() == 0 || !strips(*k, mid[0]));
    }
    let mut hi: usize = v.len();
    while hi > lo && strips_exec(k, v[hi - 1])
        invariant
            lo <= hi <= v.len(),
            forall|j: int| hi <= j < v.len() ==> strips(*k, #[trigger] v@[j]),
        decreases hi,
    {
        hi -= 1;
    }
    proof {
        assert(trim_start_by(*k, v@) == mid);
        lemma_trim_end_take(*k, mid, hi - lo);
        assert(mid.subrange(0, hi - lo) =~= v@.subrange(lo as int, hi as int));
        let t = v@.subrange(lo as int, hi as int);
        assert(t.len() == 0 || !strips(*k, t.last()));
    }
    slice(v, lo, hi)
}

/// `str::trim` on characters.
pub fn trim(v: &Vec<char>) -> (r: Vec<char>)
    ensures
        r@ == trim_spec(v@),
{
    trim_chars(&Strip::Whitespace, v)
}

// ---------------------------------------------------------------------------
// Searching
// ---------------------------------------------------------------------------

/// `p` occurs in `s` at index `i`.
pub open spec fn matches_at(s: Seq<char>, p: Seq<char>, i: int) -> bool {
    0 <= i && i + p.len() <= s.len() && s.subrange(i, i + p.len()) == p
}

/// `str::find`: the index of the first occurrence of `p` in `s`.
pub open spec fn find_spec(s: Seq<char>, p: Seq<char>) -> Option<int>
    decreases s.len(),
{
    if p.len() > s.len() {
        None
    } else if s.subrange(0, p.len() as int) == p {
        Some(0)
    } else if s.len() == 0 {
        None
    } else {
        match find_spec(s.drop_first(), p) {
            Some(i) => Some(i + 1),
            None => None,
        }
    }
}

/// `str::contains`.
pub open spec fn contains_spec(s: Seq<char>, p: Seq<char>) -> bool {
    find_spec(s, p) is Some
}

proof fn lemma_find_shift(s: Seq<char>, p: Seq<char>, i: int)
    requires
        0 <= i <= s.len(),
        forall|j: int| 0 <= j < i ==> !matches_at(s, p, j),
    ensures
        find_spec(s, p) == match find_spec(s.subrange(i, s.len() as int), p) {
            Some(k) => Some(k + i),
            None => None::<int>,
        },
    decreases i,
{
    if i == 0 {
        assert(s.subrange(0, s.len() as int) =~= s);
        match find_spec(s, p) {
            Some(k) => {},
            None => {},
        }
    } else {
        assert(!matches_at(s, p, 0));
        let t = s.drop_first();
        assert forall|j: int| 0 <= j < i - 1 implies !matches_at(t, p, j) by {
            assert(!matches_at(s, p, j + 1));
            if j + p.len() <= t.len() {
                assert(t.subrange(j, j + p.len()) =~= s.subrange(j + 1, j + 1 + p.len()));
            }
        }
        lemma_find_shift(t, p, i - 1);
        assert(t.subrange(i - 1, t.len() as int) =~= s.subrange(i, s.len() as int));
        if p.len() <= s.len() {
            assert(s.subrange(0, p.len() as int) != p) by {
                assert(!matches_at(s, p, 0));
            }
        }
    }
}

proof fn lemma_find_found(s: Seq<char>, p: Seq<char>, i: int)
    requires
        matches_at(s, p, i),
        forall|j: int| 0 <= j < i ==> !matches_at(s, p, j),
    ensures
        find_spec(s, p) == Some(i),
{
    lemma_find_shift(s, p, i);
    let t = s.subrange(i, s.len() as int);
    assert(t.subrange(0, p.len() as int) =~= s.subrange(i, i + p.len()));
}

proof fn lemma_find_none(s: Seq<char>, p: Seq<char>)
    requires
        forall|j: int| 0 <= j <= s.len() - p.len() ==> !matches_at(s, p, j),
    ensures
        find_spec(s, p) is None,
    decreases s.len(),
{
    if p.len() > s.len() {
    } else {
        assert(!matches_at(s, p, 0));
        if s.len() > 0 {
            let t = s.drop_first();
            assert forall|j: int| 0 <= j <= t.len() - p.len() implies !matches_at(t, p, j) by {
                assert(!matches_at(s, p, j + 1));
                assert(t.subrange(j, j + p.len()) =~= s.subrange(j + 1, j + 1 + p.len()));
            }
            lemma_find_none(t, p);
        }
    }
}

fn matches_at_exec(v: &Vec<char>, p: &Vec<char>, i: usize) -> (b: bool)
    requires
        i + p.len() <= v.len(),
    ensures
        b == matches_at(v@, p@, i as int),
{
    let mut k: usize = 0;
    while k < p.len()
        invariant
            i + p.len() <= v.len(),
            k <= p.len(),
            forall|j: int| 0 <= j < k ==> v@[i + j] == p@[j],
        decreases p.len() - k,
    {
        if v[i + k] != p[k] {
            assert(v@.subrange(i as int, i + p.len())[k as int] != p@[k as int]);
            return false;
        }
        k += 1;
    }
    assert(v@.subrange(i as int, i + p.len()) =~= p@);
    true
}

/// `str::find` on characters: the first index at which `p` occurs in `v`.
pub fn find(v: &Vec<char>, p: &Vec<char>) -> (r: Option<usize>)
    ensures
        r matches Some(i) ==> find_spec(v@, p@) == Some(i as int),
        r matches Some(i) ==> matches_at(v@, p@, i as int),
        r is None ==> find_spec(v@, p@) is None,
{
    if p.len() > v.len() {
        proof {
            lemma_find_none(v@, p@);
        }
        return None;
    }
    let mut i: usize = 0;
    let last = v.len() - p.len();
    while i < last
        invariant
            p.len() <= v.len(),
            last == v.len() - p.len(),
            i <= last,
            forall|j: int| 0 <= j < i ==> !matches_at(v@, p@, j),
        decreases last - i,
    {
        if matches_at_exec(v, p, i) {
            proof {
                lemma_find_found(v@, p@, i as int);
            }
            return Some(i);
        }
        i += 1;
    }
    if matches_at_exec(v, p, last) {
        proof {
            lemma_find_found(v@, p@, last as int);
        }
        return Some(last);
    }
    proof {
        lemma_find_none(v@, p@);
    }
    None
}

/// `str::contains` on characters.
pub fn contains(v: &Vec<char>, p: &Vec<char>) -> (b: bool)
    ensures
        b == contains_spec(v@, p@),
{
    find(v, p).is_some()
}

// ---------------------------------------------------------------------------
// Conversions between strings and characters
// ---------------------------------------------------------------------------

/// The characters of `s`, in order.
pub fn chars_of(s: &str) -> (r: Vec<char>)
    ensures
        r@ == s@,
{
    let mut r: Vec<char> = Vec::new();
    for c in it: s.chars()
        invariant
            it.seq() == s@,
            r@ == it.seq().take(it.index() as int),
    {
        r.push(c);
    }
    r
}

/// `String` made of the characters of `v` (std's `FromIterator<char>` for `String`).
#[verifier::external_body]
pub(crate) fn string_of(v: &Vec<char>) -> (s: String)
    ensures
        s@ == v@,
{
    v.iter().collect()
}

/// Appends the characters of `s` to `out`.
pub fn push_str(out: &mut Vec<char>, s: &str)
    ensures
        final(out)@ == old(out)@ + s@,
{
    let mut cs = chars_of(s);
    out.append(&mut cs);
}

/// Appends the characters of `w` to `out`.
pub fn push_chars(out: &mut Vec<char>, w: &Vec<char>)
    ensures
        final(out)@ == old(out)@ + w@,
{
    let mut i: usize = 0;
    let ghost start = out@;
    while i < w.len()
        invariant
            i <= w.len(),
            out@ == start + w@.subrange(0, i as int),
        decreases w.len() - i,
    {
        out.push(w[i]);
        i += 1;
        assert(out@ =~= start + w@.subrange(0, i as int));
    }
    assert(w@.subrange(0, w.len() as int) =~= w@);
}

} // verus!

verus! {

/// `==` on two strings, by their characters.
pub fn str_eq(a: &str, b: &str) -> (r: bool)
    ensures
        r == (a@ == b@),
{
    let x = chars_of(a);
    let y = chars_of(b);
    chars_eq(&x, &y)
}

/// `==` on two character sequences.
pub fn chars_eq(x: &Vec<char>, y: &Vec<char>) -> (r: bool)
    ensures
        r == (x@ == y@),
{
    if x.len() != y.len() {
        return false;
    }
    let mut i: usize = 0;
    while i < x.len()
        invariant
            x.len() == y.len(),
            i <= x.len(),
            forall|j: int| 0 <= j < i ==> x@[j] == y@[j],
        decreases x.len() - i,
    {
        if x[i] != y[i] {
            return false;
        }
        i += 1;
    }
    assert(x@ =~= y@);
    true
}

} // verus!

verus! {

/// `char::to_ascii_lowercase`.
pub open spec fn ascii_lower(c: char) -> char {
    if 'A' <= c && c <= 'Z' {
        ((c as u32) + 32) as char
    } else {
        c
    }
}

/// `str::eq_ignore_ascii_case`.
pub open spec fn eq_ignore_case_spec(a: Seq<char>, b: Seq<char>) -> bool {
    a.len() == b.len() && forall|i: int| 0 <= i < a.len() ==> ascii_lower(#[trigger] a[i])
        == ascii_lower(b[i])
}

fn ascii_lower_exec(c: char) -> (r: char)
    ensures
        r == ascii_lower(c),
{
    if 'A' <= c && c <= 'Z' {
        (((c as u32) + 32) as u8) as char
    } else {
        c
    }
}

/// `str::eq_ignore_ascii_case` on characters.
pub fn chars_eq_ignore_case(a: &Vec<char>, b: &Vec<char>) -> (r: bool)
    ensures
        r == eq_ignore_case_spec(a@, b@),
{
    if a.len() != b.len() {
        return false;
    }
    let mut i: usize = 0;
    while i < a.len()
        invariant
            a.len() == b.len(),
            i <= a.len(),
            forall|j: int| 0 <= j < i ==> ascii_lower(#[trigger] a@[j]) == ascii_lower(b@[j]),
        decreases a.len() - i,
    {
        if ascii_lower_exec(a[i]) != ascii_lower_exec(b[i]) {
            return false;
        }
        i += 1;
    }
    true
}

/// `str::eq_ignore_ascii_case`.
pub fn eq_ignore_case(a: &str, b: &str) -> (r: bool)
    ensures
        r == eq_ignore_case_spec(a@, b@),
{
    chars_eq_ignore_case(&chars_of(a), &chars_of(b))
}

} // verus!

verus! {

// ---------------------------------------------------------------------------
// Splitting
// ---------------------------------------------------------------------------

/// `str::split` on one character: the pieces of `s` between occurrences of
/// `sep` (always at least one piece).
pub open spec fn split_spec(s: Seq<char>, sep: char) -> Seq<Seq<char>>
    decreases s.len(),
{
    if s.len() == 0 {
        seq![Seq::empty()]
    } else {
        let rest = split_spec(s.drop_last(), sep);
        if s.last() == sep {
            rest.push(Seq::empty())
        } else {
            rest.update(rest.len() - 1, rest.last().push(s.last()))
        }
    }
}

pub proof fn lemma_split_nonempty(s: Seq<char>, sep: char)
    ensures
        split_spec(s, sep).len() >= 1,
    decreases s.len(),
{
    if s.len() > 0 {
        lemma_split_nonempty(s.drop_last(), sep);
    }
}

/// The pieces of `v` between occurrences of `sep`.
pub fn split_chars(v: &Vec<char>, sep: char) -> (r: Vec<Vec<char>>)
    ensures
        r@.len() == split_spec(v@, sep).len(),
        forall|i: int| 0 <= i < r@.len() ==> (#[trigger] r@[i])@ == split_spec(v@, sep)[i],
{
    let mut out: Vec<Vec<char>> = Vec::new();
    let mut cur: Vec<char> = Vec::new();
    let mut i: usize = 0;
    assert(v@.subrange(0, 0) =~= Seq::<char>::empty());
    while i < v.len()
        invariant
            i <= v.len(),
            out@.len() + 1 == split_spec(v@.subrange(0, i as int), sep).len(),
            forall|j: int| 0 <= j < out@.len() ==> (#[trigger] out@[j])@ == split_spec(
                v@.subrange(0, i as int),
                sep,
            )[j],
            cur@ == split_spec(v@.subrange(0, i as int), sep).last(),
        decreases v.len() - i,
    {
        let ghost pre = v@.subrange(0, i as int);
        let ghost nxt = v@.subrange(0, i + 1);
        assert(nxt.drop_last() =~= pre);
        assert(nxt.last() == v@[i as int]);
        proof {
            lemma_split_nonempty(pre, sep);
        }
        if v[i] == sep {
            out.push(cur);
            cur = Vec::new();
            assert(cur@ =~= Seq::<char>::empty());
        } else {
            cur.push(v[i]);
        }
        i += 1;
    }
    out.push(cur);
    assert(v@.subrange(0, v.len() as int) =~= v@);
    out
}

/// `str::split_once` on one character: the text before and after the first
/// `sep`.
pub open spec fn split_once_spec(s: Seq<char>, sep: char) -> Option<(Seq<char>, Seq<char>)> {
    match find_spec(s, seq![sep]) {
        Some(i) => Some((s.subrange(0, i), s.subrange(i + 1, s.len() as int))),
        None => None,
    }
}

/// The text before and after the first `sep` in `v`.
pub fn split_once_chars(v: &Vec<char>, sep: char) -> (r: Option<(Vec<char>, Vec<char>)>)
    ensures
        match r {
            Some(p) => split_once_spec(v@, sep) == Some((p.0@, p.1@)),
            None => split_once_spec(v@, sep) is None,
        },
{
    let p: Vec<char> = vec![sep];
    assert(p@ =~= seq![sep]);
    match find(v, &p) {
        Some(i) => {
            assert(matches_at(v@, p@, i as int));
            assert(p@.len() == 1);
            assert(i + 1 <= v.len());
            Some((slice(v, 0, i), slice(v, i + 1, v.len())))
        },
        None => None,
    }
}

} // verus!

verus! {

// ---------------------------------------------------------------------------
// Bytes and formatting
// ---------------------------------------------------------------------------

/// The length in bytes that `str::len` reports for text `s`.
pub open spec fn byte_len(s: Seq<char>) -> usize {
    encode_utf8(s).len() as usize
}

/// What `String::from_utf8_lossy` makes of `bytes`.
pub uninterp spec fn lossy_utf8(bytes: Seq<u8>) -> Seq<char>;

/// `String::from_utf8_lossy`: named by `lossy_utf8`; on valid UTF-8 it is the
/// decoded text (std documents that valid input is returned unchanged).
#[verifier::external_body]
pub(crate) fn utf8_lossy(bytes: &Vec<u8>) -> (s: String)
    ensures
        s@ == lossy_utf8(bytes@),
        valid_utf8(bytes@) ==> s@ == decode_utf8(bytes@),
{
    String::from_utf8_lossy(bytes.as_slice()).into_owned()
}

/// What `{:?}` prints for a string: the text quoted and escaped.
pub uninterp spec fn debug_text(s: Seq<char>) -> Seq<char>;

/// `format!("{:?}", s)` for a string: named by `debug_text`.
#[verifier::external_body]
pub(crate) fn debug_quoted(s: &str) -> (r: String)
    ensures
        r@ == debug_text(s@),
{
    format!("{:?}", s)
}

/// `s` ends with `suffix`.
pub open spec fn ends_with_spec(s: Seq<char>, suffix: Seq<char>) -> bool {
    s.len() >= suffix.len() && s.subrange(s.len() - suffix.len(), s.len() as int) == suffix
}

/// Whether `v` ends with `suffix`.
pub fn ends_with(v: &Vec<char>, suffix: &str) -> (b: bool)
    ensures
        b == ends_with_spec(v@, suffix@),
{
    let x = chars_of(suffix);
    if x.len() > v.len() {
        return false;
    }
    chars_eq(&slice(v, v.len() - x.len(), v.len()), &x)
}

} // verus!
