//! Relative paths as `std::path::Path` reads them on a Unix host: `/`
//! separates components, repeated separators and interior `.` are normalized
//! away, a leading `.` is the current directory and `..` the parent.

use vstd::prelude::*;
use crate::text::{chars_of, lemma_split_nonempty, split_chars, split_spec};

verus! {

/// The text between separators: `s` split at every `'/'`.
pub open spec fn segments(s: Seq<char>) -> Seq<Seq<char>> {
    split_spec(s, '/')
}

pub open spec fn is_dot(seg: Seq<char>) -> bool {
    seg.len() == 1 && seg[0] == '.'
}

pub open spec fn is_dotdot(seg: Seq<char>) -> bool {
    seg.len() == 2 && seg[0] == '.' && seg[1] == '.'
}

/// Every component of `p` is a plain name: not absolute, not starting with the
/// current directory `.`, and no parent `..` anywhere.
pub open spec fn all_normal(p: Seq<char>) -> bool {
    let segs = segments(p);
    &&& !(p.len() > 0 && p[0] == '/')
    &&& !is_dot(segs[0])
    &&& forall|i: int| 0 <= i < segs.len() ==> !is_dotdot(#[trigger] segs[i])
}

/// The last component of a path made only of plain names: the last segment
/// that is neither empty nor `.`.
pub open spec fn file_name(segs: Seq<Seq<char>>) -> Option<Seq<char>>
    decreases segs.len(),
{
    if segs.len() == 0 {
        None
    } else if segs.last().len() == 0 || is_dot(segs.last()) {
        file_name(segs.drop_last())
    } else {
        Some(segs.last())
    }
}

/// Index of the last `'.'` in `s`.
pub open spec fn last_dot(s: Seq<char>) -> Option<int>
    decreases s.len(),
{
    if s.len() == 0 {
        None
    } else if s.last() == '.' {
        Some(s.len() - 1)
    } else {
        last_dot(s.drop_last())
    }
}

/// `Path::extension`: what follows the last `.` of the file name, unless the
/// name has no `.` or its only `.` is the first character.
pub open spec fn extension_spec(p: Seq<char>) -> Option<Seq<char>> {
    match file_name(segments(p)) {
        None => None,
        Some(name) => match last_dot(name) {
            None => None,
            Some(d) => if d == 0 {
                None
            } else {
                Some(name.subrange(d + 1, name.len() as int))
            },
        },
    }
}

/// The segments of `v`, each as characters.
pub fn split_segments(v: &Vec<char>) -> (r: Vec<Vec<char>>)
    ensures
        r@.len() == segments(v@).len(),
        forall|i: int| 0 <= i < r@.len() ==> (#[trigger] r@[i])@ == segments(v@)[i],
{
    split_chars(v, '/')
}

fn is_dot_exec(s: &Vec<char>) -> (b: bool)
    ensures
        b == is_dot(s@),
{
    s.len() == 1 && s[0] == '.'
}

fn is_dotdot_exec(s: &Vec<char>) -> (b: bool)
    ensures
        b == is_dotdot(s@),
{
    s.len() == 2 && s[0] == '.' && s[1] == '.'
}

/// Whether every component of `p` is a plain name.
pub fn all_normal_exec(p: &Vec<char>) -> (b: bool)
    ensures
        b == all_normal(p@),
{
    if p.len() > 0 && p[0] == '/' {
        return false;
    }
    let segs = split_segments(p);
    proof {
        lemma_split_nonempty(p@, '/');
    }
    if is_dot_exec(&segs[0]) {
        return false;
    }
    let mut i: usize = 0;
    while i < segs.len()
        invariant
            i <= segs.len(),
            segs@.len() == segments(p@).len(),
            forall|j: int| 0 <= j < segs@.len() ==> (#[trigger] segs@[j])@ == segments(p@)[j],
            forall|j: int| 0 <= j < i ==> !is_dotdot(#[trigger] segments(p@)[j]),
        decreases segs.len() - i,
    {
        if is_dotdot_exec(&segs[i]) {
            return false;
        }
        i += 1;
    }
    true
}

/// `Path::extension` of a path made only of plain names.
pub fn extension(p: &Vec<char>) -> (r: Option<Vec<char>>)
    ensures
        match r {
            Some(v) => extension_spec(p@) == Some(v@),
            None => extension_spec(p@) is None,
        },
{
    let segs = split_segments(p);
    let ghost sv = segments(p@);
    let mut k: usize = segs.len();
    assert(sv.subrange(0, sv.len() as int) =~= sv);
    while k > 0 && (segs[k - 1].len() == 0 || is_dot_exec(&segs[k - 1]))
        invariant
            k <= segs.len(),
            segs@.len() == sv.len(),
            sv == segments(p@),
            forall|j: int| 0 <= j < segs@.len() ==> (#[trigger] segs@[j])@ == sv[j],
            file_name(sv) == file_name(sv.subrange(0, k as int)),
        decreases k,
    {
        assert(sv.subrange(0, k as int).drop_last() =~= sv.subrange(0, k - 1));
        k -= 1;
    }
    if k == 0 {
        return None;
    }
    let name = &segs[k - 1];
    assert(file_name(sv) == Some(name@));
    let mut d: usize = name.len();
    assert(name@.subrange(0, name@.len() as int) =~= name@);
    while d > 0 && name[d - 1] != '.'
        invariant
            d <= name.len(),
            last_dot(name@) == last_dot(name@.subrange(0, d as int)),
        decreases d,
    {
        assert(name@.subrange(0, d as int).drop_last() =~= name@.subrange(0, d - 1));
        d -= 1;
    }
    if d == 0 {
        return None;
    }
    assert(last_dot(name@) == Some(d - 1));
    if d - 1 == 0 {
        return None;
    }
    Some(crate::text::slice(name, d, name.len()))
}

/// Whether the extension of `p` is `e`.
pub fn extension_is(ext: &Option<Vec<char>>, e: &str) -> (b: bool)
    ensures
        b == (ext matches Some(v) && v@ == e@),
{
    match ext {
        Some(v) => crate::text::chars_eq(v, &chars_of(e)),
        None => false,
    }
}

/// `Path::join`: an absolute `p` replaces `base`; otherwise `p` follows
/// `base` after a separator, which is not doubled and not put after an empty
/// base.
pub open spec fn path_join_spec(base: Seq<char>, p: Seq<char>) -> Seq<char> {
    if p.len() > 0 && p[0] == '/' {
        p
    } else if base.len() == 0 || base.last() == '/' {
        base + p
    } else {
        base + seq!['/'] + p
    }
}

/// `base.join(p)` as text.
pub fn join_path(base: &str, p: &str) -> (r: String)
    ensures
        r@ == path_join_spec(base@, p@),
{
    let b = chars_of(base);
    let q = chars_of(p);
    if q.len() > 0 && q[0] == '/' {
        return p.to_owned();
    }
    let mut out = b;
    if out.len() > 0 && out[out.len() - 1] != '/' {
        out.push('/');
    }
    crate::text::push_chars(&mut out, &q);
    proof {
        if base@.len() == 0 || base@.last() == '/' {
            assert(out@ =~= base@ + p@);
        } else {
            assert(out@ =~= base@ + seq!['/'] + p@);
        }
    }
    crate::text::string_of(&out)
}

/// The named components among `segs`: those that are neither empty nor `.`.
pub open spec fn names(segs: Seq<Seq<char>>) -> Seq<Seq<char>>
    decreases segs.len(),
{
    if segs.len() == 0 {
        Seq::empty()
    } else {
        let rest = names(segs.drop_last());
        let s = segs.last();
        if s.len() == 0 || is_dot(s) {
            rest
        } else {
            rest.push(s)
        }
    }
}

pub open spec fn is_absolute(p: Seq<char>) -> bool {
    p.len() > 0 && p[0] == '/'
}

/// `Path::starts_with` on paths such as `canonicalize` gives (no `..`, and
/// `.` only where it is dropped): both paths are absolute or both relative,
/// and the named components of `root` begin those of `path`.
pub open spec fn within_spec(path: Seq<char>, root: Seq<char>) -> bool {
    let p = names(segments(path));
    let r = names(segments(root));
    &&& is_absolute(path) == is_absolute(root)
    &&& r.len() <= p.len()
    &&& p.subrange(0, r.len() as int) == r
}

fn names_exec(v: &Vec<char>) -> (r: Vec<Vec<char>>)
    ensures
        r@.len() == names(segments(v@)).len(),
        forall|i: int| 0 <= i < r@.len() ==> (#[trigger] r@[i])@ == names(segments(v@))[i],
{
    let segs = split_segments(v);
    let ghost sv = segments(v@);
    let mut out: Vec<Vec<char>> = Vec::new();
    let mut i: usize = 0;
    while i < segs.len()
        invariant
            i <= segs@.len(),
            segs@.len() == sv.len(),
            forall|j: int| 0 <= j < segs@.len() ==> (#[trigger] segs@[j])@ == sv[j],
            out@.len() == names(sv.subrange(0, i as int)).len(),
            forall|j: int|
                0 <= j < out@.len() ==> (#[trigger] out@[j])@ == names(sv.subrange(0, i as int))[j],
        decreases segs.len() - i,
    {
        let ghost before = names(sv.subrange(0, i as int));
        assert(sv.subrange(0, i as int + 1).drop_last() =~= sv.subrange(0, i as int));
        assert(sv.subrange(0, i as int + 1).last() == sv[i as int]);
        let seg = &segs[i];
        if !(seg.len() == 0 || is_dot_exec(seg)) {
            out.push(seg.clone());
            assert(names(sv.subrange(0, i as int + 1)) == before.push(sv[i as int]));
        }
        i += 1;
    }
    assert(sv.subrange(0, segs@.len() as int) =~= sv);
    out
}

/// Whether `path` lies within `root`, component by component, as
/// `Path::starts_with` says for paths such as `canonicalize` gives.
pub fn path_within(path: &str, root: &str) -> (r: bool)
    ensures
        r == within_spec(path@, root@),
{
    let pv = chars_of(path);
    let rv = chars_of(root);
    let p_abs = pv.len() > 0 && pv[0] == '/';
    let r_abs = rv.len() > 0 && rv[0] == '/';
    if p_abs != r_abs {
        return false;
    }
    let p = names_exec(&pv);
    let r = names_exec(&rv);
    let ghost pn = names(segments(path@));
    let ghost rn = names(segments(root@));
    if r.len() > p.len() {
        return false;
    }
    let mut i: usize = 0;
    while i < r.len()
        invariant
            i <= r@.len(),
            r@.len() <= p@.len(),
            pn == names(segments(path@)),
            rn == names(segments(root@)),
            is_absolute(path@) == is_absolute(root@),
            r@.len() == rn.len(),
            p@.len() == pn.len(),
            forall|j: int| 0 <= j < r@.len() ==> (#[trigger] r@[j])@ == rn[j],
            forall|j: int| 0 <= j < p@.len() ==> (#[trigger] p@[j])@ == pn[j],
            forall|j: int| 0 <= j < i ==> pn[j] == rn[j],
        decreases r.len() - i,
    {
        if !crate::text::chars_eq(&p[i], &r[i]) {
            assert(p@[i as int]@ == pn[i as int]);
            assert(r@[i as int]@ == rn[i as int]);
            assert(pn.subrange(0, rn.len() as int)[i as int] != rn[i as int]);
            assert(pn.subrange(0, rn.len() as int) != rn);
            return false;
        }
        i += 1;
    }
    assert(pn.subrange(0, rn.len() as int) =~= rn);
    true
}

} // verus!
