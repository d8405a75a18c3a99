//! Reading and writing unsigned integers as text: the digits that std's
//! `from_str_radix` / `parse` accept, and the decimal and hexadecimal forms
//! that `{}`, `{:x}`, `{:#x}` and zero-padded widths print.

use vstd::prelude::*;

verus! {

// ---------------------------------------------------------------------------
// Parsing
// ---------------------------------------------------------------------------

/// The value of digit `c` in base `radix` (10 or 16; letters in either case).
pub open spec fn digit_val(c: char, radix: nat) -> Option<nat> {
    let v: int = if '0' <= c && c <= '9' {
        c as int - '0' as int
    } else if 'a' <= c && c <= 'z' {
        c as int - 'a' as int + 10
    } else if 'A' <= c && c <= 'Z' {
        c as int - 'A' as int + 10
    } else {
        radix as int
    };
    if v < radix {
        Some(v as nat)
    } else {
        None
    }
}

pub open spec fn all_digits(d: Seq<char>, radix: nat) -> bool {
    forall|i: int| 0 <= i < d.len() ==> #[trigger] digit_val(d[i], radix) is Some
}

/// The number that the digits `d` denote in base `radix`.
pub open spec fn digits_value(d: Seq<char>, radix: nat) -> nat
    decreases d.len(),
{
    if d.len() == 0 {
        0
    } else {
        digits_value(d.drop_last(), radix) * radix + digit_val(d.last(), radix).unwrap()
    }
}

/// std's `from_str_radix` for an unsigned integer type whose largest value is
/// `max`: an optional `+`, then at least one digit, and a value that fits.
pub open spec fn parse_radix(s: Seq<char>, radix: nat, max: nat) -> Option<nat> {
    if s.len() == 0 {
        None
    } else {
        let d = if s[0] == '+' {
            s.drop_first()
        } else {
            s
        };
        if d.len() == 0 || !all_digits(d, radix) {
            None
        } else if digits_value(d, radix) <= max {
            Some(digits_value(d, radix))
        } else {
            None
        }
    }
}

/// `str::parse::<u32>`.
pub open spec fn parse_u32_spec(s: Seq<char>) -> Option<u32> {
    match parse_radix(s, 10, u32::MAX as nat) {
        Some(v) => Some(v as u32),
        None => None,
    }
}

proof fn lemma_digits_value_mono(d: Seq<char>, radix: nat, i: int)
    requires
        radix >= 1,
        all_digits(d, radix),
        0 <= i <= d.len(),
    ensures
        digits_value(d.take(i), radix) <= digits_value(d, radix),
    decreases d.len(),
{
    if i < d.len() {
        let e = d.drop_last();
        assert(all_digits(e, radix)) by {
            assert forall|k: int| 0 <= k < e.len() implies #[trigger] digit_val(e[k], radix) is Some by {
                assert(e[k] == d[k]);
            }
        }
        lemma_digits_value_mono(e, radix, i);
        assert(e.take(i) =~= d.take(i));
        assert(digits_value(d, radix) == digits_value(e, radix) * radix + digit_val(
            d.last(),
            radix,
        ).unwrap());
        assert(digits_value(e, radix) * radix >= digits_value(e, radix)) by (nonlinear_arith)
            requires
                radix >= 1,
        ;
    } else {
        assert(d.take(i) =~= d);
    }
}

fn digit_val_exec(c: char, radix: u64) -> (r: Option<u64>)
    requires
        radix == 10 || radix == 16,
    ensures
        r matches Some(v) ==> digit_val(c, radix as nat) == Some(v as nat),
        r is None ==> digit_val(c, radix as nat) is None,
{
    let v: u64 = if '0' <= c && c <= '9' {
        (c as u64) - ('0' as u64)
    } else if 'a' <= c && c <= 'z' {
        (c as u64) - ('a' as u64) + 10
    } else if 'A' <= c && c <= 'Z' {
        (c as u64) - ('A' as u64) + 10
    } else {
        radix
    };
    if v < radix {
        Some(v)
    } else {
        None
    }
}

/// `from_str_radix` in base 10 or 16 for an unsigned type with largest value `max`.
pub fn parse_radix_exec(s: &Vec<char>, radix: u64, max: u64) -> (r: Option<u64>)
    requires
        radix == 10 || radix == 16,
    ensures
        r matches Some(v) ==> parse_radix(s@, radix as nat, max as nat) == Some(v as nat),
        r is None ==> parse_radix(s@, radix as nat, max as nat) is None,
{
    if s.len() == 0 {
        return None;
    }
    let start: usize = if s[0] == '+' {
        1
    } else {
        0
    };
    let ghost d = if s@[0] == '+' {
        s@.drop_first()
    } else {
        s@
    };
    assert(d =~= s@.subrange(start as int, s.len() as int));
    if start == s.len() {
        return None;
    }
    let mut acc: u64 = 0;
    let mut i: usize = start;
    while i < s.len()
        invariant
            radix == 10 || radix == 16,
            start <= i <= s.len(),
            start < s.len(),
            d == s@.subrange(start as int, s.len() as int),
            d == (if s@[0] == '+' {
                s@.drop_first()
            } else {
                s@
            }),
            all_digits(d.take(i - start), radix as nat),
            acc as nat == digits_value(d.take(i - start), radix as nat),
            acc <= max,
        decreases s.len() - i,
    {
        let dv = digit_val_exec(s[i], radix);
        let ghost k = i - start;
        assert(d[k] == s@[i as int]);
        match dv {
            None => {
                assert(digit_val(d[k], radix as nat) is None);
                assert(!all_digits(d, radix as nat));
                return None;
            },
            Some(x) => {
                let ghost t = d.take(k + 1);
                assert(t.drop_last() =~= d.take(k));
                assert(all_digits(t, radix as nat)) by {
                    assert forall|j: int| 0 <= j < t.len() implies #[trigger] digit_val(
                        t[j],
                        radix as nat,
                    ) is Some by {
                        if j < k {
                            assert(t[j] == d.take(k)[j]);
                        }
                    }
                }
                assert(digits_value(t, radix as nat) == acc * radix + x);
                if x > max {
                    proof {
                        if all_digits(d, radix as nat) {
                            lemma_digits_value_mono(d, radix as nat, k + 1);
                        }
                    }
                    return None;
                }
                let lim = (max - x) / radix;
                if acc > lim {
                    assert(acc * radix + x > max) by (nonlinear_arith)
                        requires
                            acc > lim,
                            lim == (max - x) as u64 / radix,
                            radix > 0,
                            x <= max,
                    ;
                    proof {
                        if all_digits(d, radix as nat) {
                            lemma_digits_value_mono(d, radix as nat, k + 1);
                        }
                    }
                    return None;
                }
                assert(acc * radix + x <= max) by (nonlinear_arith)
                    requires
                        acc <= lim,
                        lim == (max - x) as u64 / radix,
                        radix > 0,
                        x <= max,
                ;
                acc = acc * radix + x;
            },
        }
        i += 1;
    }
    assert(d.take(i - start) =~= d);
    Some(acc)
}

/// `str::parse::<u32>` on characters.
pub fn parse_u32(s: &Vec<char>) -> (r: Option<u32>)
    ensures
        r == parse_u32_spec(s@),
{
    match parse_radix_exec(s, 10, u32::MAX as u64) {
        Some(v) => Some(v as u32),
        None => None,
    }
}

// ---------------------------------------------------------------------------
// Rendering
// ---------------------------------------------------------------------------

/// The digit character for `d` (lower-case letters above nine).
pub open spec fn digit_char(d: nat) -> char {
    if d < 10 {
        ('0' as int + d) as char
    } else {
        ('a' as int + d - 10) as char
    }
}

/// `n` written in base `radix` with no leading zeros (`{}` / `{:x}`).
pub open spec fn radix_spec(n: nat, radix: nat) -> Seq<char>
    decreases n,
{
    if radix < 2 || n < radix {
        seq![digit_char(n)]
    } else {
        proof {
            assert(n / radix < n) by (nonlinear_arith)
                requires
                    radix >= 2,
                    n >= radix,
            ;
        }
        radix_spec(n / radix, radix).push(digit_char(n % radix))
    }
}

/// `{}` of an unsigned integer.
pub open spec fn dec_spec(n: nat) -> Seq<char> {
    radix_spec(n, 10)
}

/// `{:x}` of an unsigned integer.
pub open spec fn hex_spec(n: nat) -> Seq<char> {
    radix_spec(n, 16)
}

/// `{:0w$x}`: lower-case hex of `n`, left-padded with zeros to `w` digits.
pub open spec fn hex_pad_spec(n: nat, w: nat) -> Seq<char> {
    let h = hex_spec(n);
    if h.len() < w {
        Seq::new((w - h.len()) as nat, |i: int| '0') + h
    } else {
        h
    }
}

fn digit_char_exec(d: u64) -> (c: char)
    requires
        d < 16,
    ensures
        c == digit_char(d as nat),
{
    if d < 10 {
        ((d as u8) + 48u8) as char
    } else {
        ((d as u8) - 10 + 97u8) as char
    }
}

fn push_radix(out: &mut Vec<char>, n: u64, radix: u64)
    requires
        radix == 10 || radix == 16,
    ensures
        final(out)@ == old(out)@ + radix_spec(n as nat, radix as nat),
    decreases n,
{
    if n >= radix {
        push_radix(out, n / radix, radix);
    }
    out.push(digit_char_exec(n % radix));
    proof {
        if n < radix {
            assert(n % radix == n);
        }
    }
}

/// Appends `{}` of `n` to `out`.
pub fn push_dec(out: &mut Vec<char>, n: u64)
    ensures
        final(out)@ == old(out)@ + dec_spec(n as nat),
{
    push_radix(out, n, 10);
}

/// Appends `{:x}` of `n` to `out`.
pub fn push_hex(out: &mut Vec<char>, n: u64)
    ensures
        final(out)@ == old(out)@ + hex_spec(n as nat),
{
    push_radix(out, n, 16);
}

/// Appends `{:0w$x}` of `n` to `out`.
pub fn push_hex_pad(out: &mut Vec<char>, n: u64, w: usize)
    ensures
        final(out)@ == old(out)@ + hex_pad_spec(n as nat, w as nat),
{
    let mut h: Vec<char> = Vec::new();
    push_hex(&mut h, n);
    assert(h@ =~= hex_spec(n as nat));
    let ghost start = out@;
    if h.len() < w {
        let pad = w - h.len();
        let mut i: usize = 0;
        while i < pad
            invariant
                i <= pad,
                out@ == start + Seq::new(i as nat, |j: int| '0'),
            decreases pad - i,
        {
            out.push('0');
            i += 1;
            assert(out@ =~= start + Seq::new(i as nat, |j: int| '0'));
        }
    }
    let mut k: usize = 0;
    let ghost mid = out@;
    while k < h.len()
        invariant
            k <= h.len(),
            out@ == mid + h@.subrange(0, k as int),
        decreases h.len() - k,
    {
        out.push(h[k]);
        k += 1;
        assert(out@ =~= mid + h@.subrange(0, k as int));
    }
    assert(h@.subrange(0, h.len() as int) =~= h@);
    assert(out@ =~= start + hex_pad_spec(n as nat, w as nat));
}

} // verus!
