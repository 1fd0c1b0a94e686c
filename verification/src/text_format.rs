//! Text building blocks: decimal and hexadecimal renderings of numbers and
//! appending one string to another.

use vstd::prelude::*;
use crate::chars::{collect_chars, string_push};

verus! {

pub open spec fn digit_char(d: int) -> char {
    if d == 0 {
        '0'
    } else if d == 1 {
        '1'
    } else if d == 2 {
        '2'
    } else if d == 3 {
        '3'
    } else if d == 4 {
        '4'
    } else if d == 5 {
        '5'
    } else if d == 6 {
        '6'
    } else if d == 7 {
        '7'
    } else if d == 8 {
        '8'
    } else if d == 9 {
        '9'
    } else if d == 10 {
        'A'
    } else if d == 11 {
        'B'
    } else if d == 12 {
        'C'
    } else if d == 13 {
        'D'
    } else if d == 14 {
        'E'
    } else {
        'F'
    }
}

/// The digits of `n` in base `base` (2..=16), most significant first, with no
/// leading zeros ("0" for zero).
pub open spec fn digits(n: nat, base: nat) -> Seq<char>
    decreases n,
{
    if base < 2 || n < base {
        seq![digit_char(n as int)]
    } else {
        proof {
            assert(n / base < n) by (nonlinear_arith)
                requires
                    base >= 2,
                    n >= base,
            ;
        }
        digits(n / base, base).push(digit_char((n % base) as int))
    }
}

/// Decimal rendering of `n`, as `to_string` writes it.
pub open spec fn decimal(n: nat) -> Seq<char> {
    digits(n, 10)
}

/// Upper-case hexadecimal rendering of `n`, left-padded with zeros to at
/// least four digits (the `{:04X}` format).
pub open spec fn hex4(n: nat) -> Seq<char> {
    let h = digits(n, 16);
    if h.len() >= 4 {
        h
    } else {
        Seq::new((4 - h.len()) as nat, |i: int| '0') + h
    }
}

fn digit_char_exec(d: u32) -> (c: char)
    requires
        d < 16,
    ensures
        c == digit_char(d as int),
{
    if d == 0 {
        '0'
    } else if d == 1 {
        '1'
    } else if d == 2 {
        '2'
    } else if d == 3 {
        '3'
    } else if d == 4 {
        '4'
    } else if d == 5 {
        '5'
    } else if d == 6 {
        '6'
    } else if d == 7 {
        '7'
    } else if d == 8 {
        '8'
    } else if d == 9 {
        '9'
    } else if d == 10 {
        'A'
    } else if d == 11 {
        'B'
    } else if d == 12 {
        'C'
    } else if d == 13 {
        'D'
    } else if d == 14 {
        'E'
    } else {
        'F'
    }
}

/// Appends the digits of `n` in base `base`.
pub fn push_digits(s: &mut String, n: u64, base: u64)
    requires
        2 <= base <= 16,
    ensures
        final(s)@ == old(s)@ + digits(n as nat, base as nat),
    decreases n,
{
    if n < base {
        string_push(s, digit_char_exec(n as u32));
        assert(s@ =~= old(s)@ + digits(n as nat, base as nat));
    } else {
        assert(n / base < n) by (nonlinear_arith)
            requires
                base >= 2,
                n >= base,
        ;
        push_digits(s, n / base, base);
        string_push(s, digit_char_exec((n % base) as u32));
        assert(s@ =~= old(s)@ + digits(n as nat, base as nat));
    }
}

/// Appends the decimal rendering of `n`.
pub fn push_decimal(s: &mut String, n: u64)
    ensures
        final(s)@ == old(s)@ + decimal(n as nat),
{
    push_digits(s, n, 10);
}

/// The decimal rendering of `n` as a new string.
pub fn decimal_string(n: u64) -> (s: String)
    ensures
        s@ == decimal(n as nat),
{
    let mut s = String::new();
    push_decimal(&mut s, n);
    assert(s@ =~= decimal(n as nat));
    s
}

/// Appends the `{:04X}` rendering of `n`.
pub fn push_hex4(s: &mut String, n: u32)
    ensures
        final(s)@ == old(s)@ + hex4(n as nat),
{
    let mut h = String::new();
    push_digits(&mut h, n as u64, 16);
    let hc = collect_chars(h.as_str());
    let mut k: usize = 0;
    let ghost hs = digits(n as nat, 16);
    assert(hc@ =~= hs);
    let zeros = if hc.len() >= 4 {
        0
    } else {
        4 - hc.len()
    };
    while k < zeros
        invariant
            k <= zeros,
            s@ == old(s)@ + Seq::new(k as nat, |i: int| '0'),
        decreases zeros - k,
    {
        string_push(s, '0');
        assert(s@ =~= old(s)@ + Seq::new((k + 1) as nat, |i: int| '0'));
        k = k + 1;
    }
    let mut j: usize = 0;
    while j < hc.len()
        invariant
            j <= hc.len(),
            hc@ == hs,
            s@ == old(s)@ + Seq::new(zeros as nat, |i: int| '0') + hs.take(j as int),
        decreases hc.len() - j,
    {
        string_push(s, hc[j]);
        assert(hs.take(j as int).push(hs[j as int]) =~= hs.take(j + 1));
        j = j + 1;
    }
    assert(hs.take(hc.len() as int) =~= hs);
    assert(s@ =~= old(s)@ + hex4(n as nat));
}

/// Appends all characters of `t`.
pub fn push_str(s: &mut String, t: &str)
    ensures
        final(s)@ == old(s)@ + t@,
{
    s.append(t);
}

/// A new string holding the characters of `t`.
pub fn to_owned_string(t: &str) -> (s: String)
    ensures
        s@ == t@,
{
    t.to_owned()
}

/// `a` followed by `b`, as a new string.
pub fn concat_str(a: &str, b: &str) -> (s: String)
    ensures
        s@ == a@ + b@,
{
    let mut s = to_owned_string(a);
    push_str(&mut s, b);
    s
}

/// One character of a code point preview: `U+`, the `{:04X}` rendering of
/// its code point, and the character in round brackets.
pub open spec fn codepoint_entry(c: char) -> Seq<char> {
    seq!['U', '+'] + hex4(c as u32 as nat) + seq!['(', c, ')']
}

/// The entries of `chars`, separated by commas.
pub open spec fn codepoint_entries(chars: Seq<char>) -> Seq<char>
    decreases chars.len(),
{
    if chars.len() == 0 {
        Seq::empty()
    } else if chars.len() == 1 {
        codepoint_entry(chars[0])
    } else {
        codepoint_entries(chars.drop_last()).push(',') + codepoint_entry(chars.last())
    }
}

/// The code points of the first `limit` characters of `text`, as
/// `U+0041(A),U+00E9(é)`.
pub fn codepoint_preview(text: &str, limit: usize) -> (preview: String)
    ensures
        preview@ == codepoint_entries(
            text@.take(
                if limit <= text@.len() {
                    limit as int
                } else {
                    text@.len() as int
                },
            ),
        ),
{
    let chars = collect_chars(text);
    let n = if limit <= chars.len() {
        limit
    } else {
        chars.len()
    };
    let mut preview = String::new();
    let mut i: usize = 0;
    while i < n
        invariant
            chars@ == text@,
            i <= n <= chars.len(),
            preview@ == codepoint_entries(chars@.take(i as int)),
        decreases n - i,
    {
        let c = chars[i];
        let ghost before = preview@;
        if i > 0 {
            string_push(&mut preview, ',');
        }
        string_push(&mut preview, 'U');
        string_push(&mut preview, '+');
        push_hex4(&mut preview, c as u32);
        string_push(&mut preview, '(');
        string_push(&mut preview, c);
        string_push(&mut preview, ')');
        assert(chars@.take(i + 1).drop_last() =~= chars@.take(i as int));
        assert(chars@.take(i + 1).last() == c);
        if i > 0 {
            assert(preview@ =~= before.push(',') + codepoint_entry(c));
        } else {
            assert(preview@ =~= codepoint_entry(c));
        }
        i = i + 1;
    }
    preview
}

} // verus!
