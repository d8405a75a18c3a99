//! Minimal, dependency-free JSON string helpers: enough to emit provenance and
//! boundary objects. Output only; not a parser.

use vstd::prelude::*;
use crate::num::{digit_val, hex_pad_spec, push_hex_pad};
use crate::text::{chars_of, string_of};

verus! {

/// How one character is written inside a JSON string literal.
pub open spec fn escape_char_spec(c: char) -> Seq<char> {
    if c == '"' {
        seq!['\\', '"']
    } else if c == '\\' {
        seq!['\\', '\\']
    } else if c == '\n' {
        seq!['\\', 'n']
    } else if c == '\r' {
        seq!['\\', 'r']
    } else if c == '\t' {
        seq!['\\', 't']
    } else if (c as u32) < 0x20 {
        seq!['\\', 'u'] + hex_pad_spec(c as nat, 4)
    } else {
        seq![c]
    }
}

/// `s` escaped for embedding inside a JSON double-quoted string.
pub open spec fn escape_spec(s: Seq<char>) -> Seq<char>
    decreases s.len(),
{
    if s.len() == 0 {
        Seq::empty()
    } else {
        escape_spec(s.drop_last()) + escape_char_spec(s.last())
    }
}

/// `s` as a JSON string literal.
pub open spec fn quote_spec(s: Seq<char>) -> Seq<char> {
    seq!['"'] + escape_spec(s) + seq!['"']
}

/// The parts joined with `sep` between neighbours (`[T]::join`).
pub open spec fn join_spec(parts: Seq<Seq<char>>, sep: Seq<char>) -> Seq<char>
    decreases parts.len(),
{
    if parts.len() == 0 {
        Seq::empty()
    } else if parts.len() == 1 {
        parts[0]
    } else {
        join_spec(parts.drop_last(), sep) + sep + parts.last()
    }
}

/// The quoted form of each string.
pub open spec fn quoted_all(items: Seq<Seq<char>>) -> Seq<Seq<char>> {
    items.map_values(|s: Seq<char>| quote_spec(s))
}

/// A JSON array of the given strings.
pub open spec fn str_array_spec(items: Seq<Seq<char>>) -> Seq<char> {
    seq!['['] + join_spec(quoted_all(items), seq![',']) + seq![']']
}

/// The character views of a sequence of strings.
pub open spec fn strings_view(v: Seq<String>) -> Seq<Seq<char>> {
    v.map_values(|s: String| s@)
}

/// Appends the escaped form of one character.
pub fn push_escaped_char(out: &mut Vec<char>, c: char)
    ensures
        final(out)@ == old(out)@ + escape_char_spec(c),
{
    let ghost start = out@;
    if c == '"' {
        out.push('\\');
        out.push('"');
    } else if c == '\\' {
        out.push('\\');
        out.push('\\');
    } else if c == '\n' {
        out.push('\\');
        out.push('n');
    } else if c == '\r' {
        out.push('\\');
        out.push('r');
    } else if c == '\t' {
        out.push('\\');
        out.push('t');
    } else if (c as u32) < 0x20 {
        out.push('\\');
        out.push('u');
        push_hex_pad(out, c as u64, 4);
    } else {
        out.push(c);
    }
    assert(out@ =~= start + escape_char_spec(c));
}

/// Appends the escaped form of `s`.
pub fn push_escaped(out: &mut Vec<char>, s: &Vec<char>)
    ensures
        final(out)@ == old(out)@ + escape_spec(s@),
{
    let ghost start = out@;
    let mut i: usize = 0;
    while i < s.len()
        invariant
            i <= s.len(),
            out@ == start + escape_spec(s@.subrange(0, i as int)),
        decreases s.len() - i,
    {
        push_escaped_char(out, s[i]);
        proof {
            let t = s@.subrange(0, i + 1);
            assert(t.drop_last() =~= s@.subrange(0, i as int));
            assert(t.last() == s@[i as int]);
        }
        i += 1;
        assert(out@ =~= start + escape_spec(s@.subrange(0, i as int)));
    }
    assert(s@.subrange(0, s.len() as int) =~= s@);
}

/// Appends `s` as a JSON string literal.
pub fn push_quoted(out: &mut Vec<char>, s: &Vec<char>)
    ensures
        final(out)@ == old(out)@ + quote_spec(s@),
{
    let ghost start = out@;
    out.push('"');
    push_escaped(out, s);
    out.push('"');
    assert(out@ =~= start + quote_spec(s@));
}

/// Appends `items` as a JSON array of strings.
pub fn push_str_array(out: &mut Vec<char>, items: &[String])
    ensures
        final(out)@ == old(out)@ + str_array_spec(strings_view(items@)),
{
    let ghost start = out@;
    let ghost q = quoted_all(strings_view(items@));
    out.push('[');
    let mut i: usize = 0;
    while i < items.len()
        invariant
            i <= items.len(),
            q == quoted_all(strings_view(items@)),
            out@ == start + seq!['['] + join_spec(q.subrange(0, i as int), seq![',']),
        decreases items.len() - i,
    {
        let ghost before = out@;
        if i > 0 {
            out.push(',');
        }
        let cs = chars_of(items[i].as_str());
        push_quoted(out, &cs);
        proof {
            let t = q.subrange(0, i + 1);
            assert(t.drop_last() =~= q.subrange(0, i as int));
            assert(t.last() == quote_spec(items@[i as int]@));
            if i == 0 {
                assert(t.len() == 1);
            }
        }
        i += 1;
        assert(out@ =~= start + seq!['['] + join_spec(q.subrange(0, i as int), seq![',']));
    }
    out.push(']');
    assert(q.subrange(0, items.len() as int) =~= q);
    assert(out@ =~= start + str_array_spec(strings_view(items@)));
}

/// Escape a string for embedding inside a JSON double-quoted string.
pub fn escape(s: &str) -> (r: String)
    ensures
        r@ == escape_spec(s@),
{
    let cs = chars_of(s);
    let mut out: Vec<char> = Vec::new();
    push_escaped(&mut out, &cs);
    assert(out@ =~= escape_spec(s@));
    string_of(&out)
}

/// Quote and escape a string as a JSON string literal.
pub fn quote(s: &str) -> (r: String)
    ensures
        r@ == quote_spec(s@),
{
    let cs = chars_of(s);
    let mut out: Vec<char> = Vec::new();
    push_quoted(&mut out, &cs);
    assert(out@ =~= quote_spec(s@));
    string_of(&out)
}

/// Render a slice of strings as a JSON array of strings.
pub fn str_array(items: &[String]) -> (r: String)
    ensures
        r@ == str_array_spec(strings_view(items@)),
{
    let mut out: Vec<char> = Vec::new();
    push_str_array(&mut out, items);
    assert(out@ =~= str_array_spec(strings_view(items@)));
    string_of(&out)
}

// ---------------------------------------------------------------------------
// Reading back
// ---------------------------------------------------------------------------

/// The character that a two-character escape `\e` stands for.
pub open spec fn unescape_char(e: char) -> Option<char> {
    if e == '"' {
        Some('"')
    } else if e == '\\' {
        Some('\\')
    } else if e == 'n' {
        Some('\n')
    } else if e == 'r' {
        Some('\r')
    } else if e == 't' {
        Some('\t')
    } else {
        None
    }
}

/// The value of four hex digits, when all four are.
pub open spec fn hex4_value(d: Seq<char>) -> Option<nat> {
    match (digit_val(d[0], 16), digit_val(d[1], 16), digit_val(d[2], 16), digit_val(d[3], 16)) {
        (Some(a), Some(b), Some(c), Some(e)) => Some(a * 4096 + b * 256 + c * 16 + e),
        _ => None,
    }
}

pub open spec fn prepend_char(c: char, r: Option<(Seq<char>, Seq<char>)>) -> Option<
    (Seq<char>, Seq<char>),
> {
    match r {
        Some((s, rest)) => Some((seq![c] + s, rest)),
        None => None,
    }
}

/// Reads the body of a JSON string literal from the start of `t` up to its
/// closing quote: the text it stands for, and what follows the quote. A
/// backslash starts an escape (`\"`, `\\`, `\n`, `\r`, `\t`, or `\u` and
/// four hex digits); an unknown escape or a missing closing quote gives `None`.
pub open spec fn scan_string(t: Seq<char>) -> Option<(Seq<char>, Seq<char>)>
    decreases t.len(),
{
    if t.len() == 0 {
        None
    } else if t[0] == '"' {
        Some((Seq::empty(), t.drop_first()))
    } else if t[0] != '\\' {
        prepend_char(t[0], scan_string(t.drop_first()))
    } else if t.len() >= 6 && t[1] == 'u' {
        match hex4_value(t.subrange(2, 6)) {
            Some(v) => prepend_char(v as char, scan_string(t.subrange(6, t.len() as int))),
            None => None,
        }
    } else if t.len() >= 2 && t[1] != 'u' {
        match unescape_char(t[1]) {
            Some(c) => prepend_char(c, scan_string(t.subrange(2, t.len() as int))),
            None => None,
        }
    } else {
        None
    }
}

/// The text that `t` stands for when `t` is exactly one JSON string literal.
pub open spec fn unquote_spec(t: Seq<char>) -> Option<Seq<char>> {
    if t.len() > 0 && t[0] == '"' {
        match scan_string(t.drop_first()) {
            Some((s, rest)) => if rest.len() == 0 {
                Some(s)
            } else {
                None
            },
            None => None,
        }
    } else {
        None
    }
}

/// The strings of a JSON array's items, read after its `[`: string literals
/// separated by `,`, the last followed by `]` and nothing more.
pub open spec fn scan_items(t: Seq<char>) -> Option<Seq<Seq<char>>>
    decreases t.len(),
{
    if t.len() > 0 && t[0] == '"' {
        match scan_string(t.drop_first()) {
            Some((s, rest)) => if rest == seq![']'] {
                Some(seq![s])
            } else if rest.len() > 0 && rest[0] == ',' && rest.len() < t.len() {
                match scan_items(rest.drop_first()) {
                    Some(xs) => Some(seq![s] + xs),
                    None => None,
                }
            } else {
                None
            },
            None => None,
        }
    } else {
        None
    }
}

/// The strings that `t` holds when it is exactly a JSON array of strings.
pub open spec fn unarray_spec(t: Seq<char>) -> Option<Seq<Seq<char>>> {
    if t == seq!['[', ']'] {
        Some(Seq::empty())
    } else if t.len() > 0 && t[0] == '[' {
        scan_items(t.drop_first())
    } else {
        None
    }
}

} // verus!
