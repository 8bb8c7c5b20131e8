//! Fixed-width lowercase hexadecimal coding of integers and of character
//! sequences, with round-trip proofs.
//!
//! Token payloads are built from these pieces: every field is written as a
//! fixed number of hex digits, so the payload alphabet never contains the
//! separator that ends it.

use vstd::prelude::*;
use vstd::string::*;
use crate::text::push_char;
use crate::text::char_from_u32_checked;

verus! {

/// The lowercase hex digit for a value below sixteen.
pub open spec fn hex_char(d: u32) -> char {
    if d == 0 { '0' }
    else if d == 1 { '1' }
    else if d == 2 { '2' }
    else if d == 3 { '3' }
    else if d == 4 { '4' }
    else if d == 5 { '5' }
    else if d == 6 { '6' }
    else if d == 7 { '7' }
    else if d == 8 { '8' }
    else if d == 9 { '9' }
    else if d == 10 { 'a' }
    else if d == 11 { 'b' }
    else if d == 12 { 'c' }
    else if d == 13 { 'd' }
    else if d == 14 { 'e' }
    else { 'f' }
}

/// The value of a lowercase hex digit; sixteen marks a non-digit.
pub open spec fn hex_val(c: char) -> u32 {
    if c == '0' { 0 }
    else if c == '1' { 1 }
    else if c == '2' { 2 }
    else if c == '3' { 3 }
    else if c == '4' { 4 }
    else if c == '5' { 5 }
    else if c == '6' { 6 }
    else if c == '7' { 7 }
    else if c == '8' { 8 }
    else if c == '9' { 9 }
    else if c == 'a' { 10 }
    else if c == 'b' { 11 }
    else if c == 'c' { 12 }
    else if c == 'd' { 13 }
    else if c == 'e' { 14 }
    else if c == 'f' { 15 }
    else { 16 }
}

pub open spec fn is_hex_digit(c: char) -> bool {
    hex_val(c) < 16
}

pub open spec fn all_hex(s: Seq<char>) -> bool {
    forall|i: int| 0 <= i < s.len() ==> is_hex_digit(#[trigger] s[i])
}

pub proof fn lemma_hex_char_val(d: u32)
    requires
        d < 16,
    ensures
        is_hex_digit(hex_char(d)),
        hex_val(hex_char(d)) == d,
{
}

/// Sixteen to the power `w`.
pub open spec fn pow16(w: nat) -> nat
    decreases w,
{
    if w == 0 { 1 } else { 16 * pow16((w - 1) as nat) }
}

pub proof fn lemma_pow16_pos(w: nat)
    ensures
        pow16(w) >= 1,
    decreases w,
{
    if w > 0 {
        lemma_pow16_pos((w - 1) as nat);
    }
}

pub proof fn lemma_pow16_mono(a: nat, b: nat)
    requires
        a <= b,
    ensures
        pow16(a) <= pow16(b),
    decreases b,
{
    if a < b {
        lemma_pow16_mono(a, (b - 1) as nat);
        lemma_pow16_pos((b - 1) as nat);
    }
}

pub proof fn lemma_pow16_values()
    ensures
        pow16(8) == 0x1_0000_0000,
        pow16(16) == 0x1_0000_0000_0000_0000,
{
    reveal_with_fuel(pow16, 17);
}

/// `v` written as exactly `width` lowercase hex digits, most significant
/// first; digits above the width are dropped.
pub open spec fn hex_of(v: nat, width: nat) -> Seq<char>
    decreases width,
{
    if width == 0 {
        Seq::empty()
    } else {
        hex_of(v / 16, (width - 1) as nat).push(hex_char((v % 16) as u32))
    }
}

/// The number read from a sequence of hex digits, most significant first.
pub open spec fn hex_value(s: Seq<char>) -> nat
    decreases s.len(),
{
    if s.len() == 0 {
        0
    } else {
        hex_value(s.drop_last()) * 16 + hex_val(s.last()) as nat
    }
}

pub proof fn lemma_hex_of_props(v: nat, w: nat)
    ensures
        hex_of(v, w).len() == w,
        all_hex(hex_of(v, w)),
    decreases w,
{
    if w > 0 {
        lemma_hex_of_props(v / 16, (w - 1) as nat);
        lemma_hex_char_val((v % 16) as u32);
        assert forall|i: int| 0 <= i < hex_of(v, w).len() implies is_hex_digit(#[trigger] hex_of(v, w)[i]) by {
            if i < w - 1 {
                assert(hex_of(v, w)[i] == hex_of(v / 16, (w - 1) as nat)[i]);
            }
        }
    }
}

/// Writing a value in `w` digits and reading it back gives the value,
/// as long as it fits in `w` digits.
pub proof fn lemma_hex_roundtrip(v: nat, w: nat)
    requires
        v < pow16(w),
    ensures
        hex_value(hex_of(v, w)) == v,
    decreases w,
{
    if w == 0 {
    } else {
        assert(v / 16 < pow16((w - 1) as nat));
        lemma_hex_roundtrip(v / 16, (w - 1) as nat);
        lemma_hex_char_val((v % 16) as u32);
        let s = hex_of(v, w);
        assert(s.drop_last() =~= hex_of(v / 16, (w - 1) as nat));
        assert(hex_value(s) == (v / 16) * 16 + (v % 16));
    }
}

/// A sequence of hex digits reads back to a value that fits its width.
pub proof fn lemma_hex_value_bound(s: Seq<char>)
    requires
        all_hex(s),
    ensures
        hex_value(s) < pow16(s.len()),
    decreases s.len(),
{
    if s.len() > 0 {
        assert(all_hex(s.drop_last()));
        lemma_hex_value_bound(s.drop_last());
        assert(is_hex_digit(s[s.len() - 1]));
    }
}

/// A character sequence written as hex: eight digits per character,
/// carrying its Unicode scalar value.
pub open spec fn chars_hex(s: Seq<char>) -> Seq<char>
    decreases s.len(),
{
    if s.len() == 0 {
        Seq::empty()
    } else {
        chars_hex(s.drop_last()) + hex_of(s.last() as u32 as nat, 8)
    }
}

/// Reading a hex-coded character sequence back; `None` on any malformed
/// chunk, bad digit, or value that is not a Unicode scalar.
pub open spec fn chars_unhex(s: Seq<char>) -> Option<Seq<char>>
    decreases s.len(),
{
    if s.len() % 8 != 0 {
        None
    } else if s.len() == 0 {
        Some(Seq::empty())
    } else {
        let chunk = s.subrange(s.len() - 8, s.len() as int);
        match chars_unhex(s.subrange(0, s.len() - 8)) {
            None => None,
            Some(head) => {
                if all_hex(chunk) && vstd::utf8::is_scalar(hex_value(chunk) as u32) {
                    Some(head.push((hex_value(chunk) as u32) as char))
                } else {
                    None
                }
            },
        }
    }
}

pub proof fn lemma_chars_hex_len(s: Seq<char>)
    ensures
        chars_hex(s).len() == 8 * s.len(),
    decreases s.len(),
{
    if s.len() > 0 {
        lemma_chars_hex_len(s.drop_last());
        lemma_hex_of_props(s.last() as u32 as nat, 8);
    }
}

pub proof fn lemma_chars_hex_all_hex(s: Seq<char>)
    ensures
        all_hex(chars_hex(s)),
    decreases s.len(),
{
    if s.len() > 0 {
        lemma_chars_hex_all_hex(s.drop_last());
        lemma_hex_of_props(s.last() as u32 as nat, 8);
        let head = chars_hex(s.drop_last());
        let tail = hex_of(s.last() as u32 as nat, 8);
        assert forall|i: int| 0 <= i < chars_hex(s).len() implies is_hex_digit(#[trigger] chars_hex(s)[i]) by {
            if i < head.len() {
                assert(chars_hex(s)[i] == head[i]);
            } else {
                assert(chars_hex(s)[i] == tail[i - head.len()]);
            }
        }
    }
}

/// Hex-coding a character sequence and reading it back gives the sequence.
pub proof fn lemma_chars_roundtrip(s: Seq<char>)
    ensures
        chars_unhex(chars_hex(s)) == Some(s),
    decreases s.len(),
{
    if s.len() == 0 {
        assert(chars_unhex(chars_hex(s)) =~= Some(s));
    } else {
        let head = s.drop_last();
        let c = s.last();
        let v: nat = c as u32 as nat;
        lemma_chars_roundtrip(head);
        lemma_chars_hex_len(head);
        lemma_chars_hex_len(s);
        lemma_hex_of_props(v, 8);
        let enc = chars_hex(s);
        assert(enc.subrange(0, enc.len() - 8) =~= chars_hex(head));
        assert(enc.subrange(enc.len() - 8, enc.len() as int) =~= hex_of(v, 8));
        vstd::utf8::char_is_scalar(c);
        lemma_pow16_values();
        lemma_hex_roundtrip(v, 8);
        vstd::utf8::char_u32_cast(c, c as u32);
        assert(chars_unhex(enc) == Some(head.push(c)));
        assert(head.push(c) =~= s);
    }
}

/// Once the front of a hex-coded sequence fails to read, the whole fails.
pub proof fn lemma_unhex_none_extend(s: Seq<char>, k: int)
    requires
        s.len() % 8 == 0,
        0 <= k <= s.len(),
        k % 8 == 0,
        chars_unhex(s.subrange(0, k)) is None,
    ensures
        chars_unhex(s) is None,
    decreases s.len(),
{
    if s.len() == k {
        assert(s.subrange(0, k) =~= s);
    } else {
        let head = s.subrange(0, s.len() - 8);
        assert(head.subrange(0, k) =~= s.subrange(0, k));
        lemma_unhex_none_extend(head, k);
    }
}

/// The lowercase hex digit for a value below sixteen.
pub fn hex_char_exec(d: u32) -> (r: char)
    requires
        d < 16,
    ensures
        r == hex_char(d),
{
    if d == 0 { '0' }
    else if d == 1 { '1' }
    else if d == 2 { '2' }
    else if d == 3 { '3' }
    else if d == 4 { '4' }
    else if d == 5 { '5' }
    else if d == 6 { '6' }
    else if d == 7 { '7' }
    else if d == 8 { '8' }
    else if d == 9 { '9' }
    else if d == 10 { 'a' }
    else if d == 11 { 'b' }
    else if d == 12 { 'c' }
    else if d == 13 { 'd' }
    else if d == 14 { 'e' }
    else { 'f' }
}

/// The value of a lowercase hex digit; sixteen marks a non-digit.
pub fn hex_val_exec(c: char) -> (r: u32)
    ensures
        r == hex_val(c),
{
    if c == '0' { 0 }
    else if c == '1' { 1 }
    else if c == '2' { 2 }
    else if c == '3' { 3 }
    else if c == '4' { 4 }
    else if c == '5' { 5 }
    else if c == '6' { 6 }
    else if c == '7' { 7 }
    else if c == '8' { 8 }
    else if c == '9' { 9 }
    else if c == 'a' { 10 }
    else if c == 'b' { 11 }
    else if c == 'c' { 12 }
    else if c == 'd' { 13 }
    else if c == 'e' { 14 }
    else if c == 'f' { 15 }
    else { 16 }
}

/// Append `v` as exactly `width` hex digits, most significant first.
pub fn push_hex(out: &mut String, v: u64, width: usize)
    ensures
        final(out)@ == old(out)@ + hex_of(v as nat, width as nat),
    decreases width,
{
    if width == 0 {
        proof {
            assert(old(out)@ + hex_of(v as nat, 0) =~= old(out)@);
        }
        return;
    }
    push_hex(out, v / 16, width - 1);
    let c = hex_char_exec((v % 16) as u32);
    push_char(out, c);
    proof {
        assert(final(out)@ =~= old(out)@ + hex_of(v as nat, width as nat));
    }
}

/// Read `width` hex digits of `s` starting at `start`; `None` exactly when
/// one of them is not a lowercase hex digit.
pub fn parse_hex_at(s: &str, start: usize, width: usize) -> (r: Option<u64>)
    requires
        start + width <= s@.len(),
        start + width <= usize::MAX,
        width <= 16,
    ensures
        match r {
            Some(v) => {
                &&& all_hex(s@.subrange(start as int, start + width))
                &&& v as nat == hex_value(s@.subrange(start as int, start + width))
            },
            None => !all_hex(s@.subrange(start as int, start + width)),
        },
{
    let ghost whole = s@.subrange(start as int, start + width);
    let mut acc: u64 = 0;
    let mut i: usize = 0;
    while i < width
        invariant
            start + width <= s@.len(),
            start + width <= usize::MAX,
            width <= 16,
            i <= width,
            whole == s@.subrange(start as int, start + width),
            all_hex(whole.subrange(0, i as int)),
            acc as nat == hex_value(whole.subrange(0, i as int)),
            (acc as nat) < pow16(i as nat),
        decreases width - i,
    {
        let c = s.get_char(start + i);
        proof {
            assert(whole[i as int] == s@[start + i]);
        }
        let d = hex_val_exec(c);
        if d >= 16 {
            proof {
                assert(!is_hex_digit(whole[i as int]));
            }
            return None;
        }
        proof {
            lemma_pow16_values();
            lemma_pow16_mono((i + 1) as nat, 16);
            assert(whole.subrange(0, i + 1).drop_last() =~= whole.subrange(0, i as int));
            assert(whole.subrange(0, i + 1).last() == whole[i as int]);
        }
        acc = acc * 16 + (d as u64);
        i += 1;
    }
    proof {
        assert(whole.subrange(0, width as int) =~= whole);
    }
    Some(acc)
}

/// Append the hex coding of every character of `s`, eight digits each.
pub fn push_chars_hex(out: &mut String, s: &str)
    ensures
        final(out)@ == old(out)@ + chars_hex(s@),
{
    let len = s.unicode_len();
    let mut i: usize = 0;
    while i < len
        invariant
            len == s@.len(),
            i <= len,
            out@ == old(out)@ + chars_hex(s@.subrange(0, i as int)),
        decreases len - i,
    {
        let c = s.get_char(i);
        push_hex(out, (c as u32) as u64, 8);
        proof {
            assert(s@.subrange(0, i + 1).drop_last() =~= s@.subrange(0, i as int));
            assert(s@.subrange(0, i + 1).last() == s@[i as int]);
            assert(out@ + chars_hex(s@.subrange(0, i as int)) + hex_of(s@[i as int] as u32 as nat, 8)
                =~= out@ + chars_hex(s@.subrange(0, i + 1)));
        }
        i += 1;
    }
    proof {
        assert(s@.subrange(0, len as int) =~= s@);
    }
}

/// Read the tail of `s`, from `start` on, as a hex-coded character sequence.
pub fn parse_chars_hex(s: &str, start: usize) -> (r: Option<String>)
    requires
        start <= s@.len(),
    ensures
        match r {
            Some(e) => chars_unhex(s@.subrange(start as int, s@.len() as int)) == Some(e@),
            None => chars_unhex(s@.subrange(start as int, s@.len() as int)) is None,
        },
{
    let ghost whole = s@.subrange(start as int, s@.len() as int);
    let len = s.unicode_len();
    let tail_len = len - start;
    if tail_len % 8 != 0 {
        return None;
    }
    let chunks = tail_len / 8;
    let mut out = String::new();
    let mut k: usize = 0;
    while k < chunks
        invariant
            start <= len,
            len == s@.len(),
            tail_len == len - start,
            tail_len % 8 == 0,
            chunks == tail_len / 8,
            k <= chunks,
            whole == s@.subrange(start as int, s@.len() as int),
            chars_unhex(whole.subrange(0, 8 * k as int)) == Some(out@),
        decreases chunks - k,
    {
        let pos = start + 8 * k;
        let ghost t = whole.subrange(0, 8 * (k + 1) as int);
        proof {
            assert(t.len() == 8 * (k + 1));
            assert(t.subrange(0, t.len() - 8) =~= whole.subrange(0, 8 * k as int));
            assert(t.subrange(t.len() - 8, t.len() as int)
                =~= s@.subrange(pos as int, pos + 8));
        }
        let v = match parse_hex_at(s, pos, 8) {
            Some(v) => v,
            None => {
                proof {
                    assert(chars_unhex(t) is None);
                    lemma_unhex_none_extend(whole, 8 * (k + 1) as int);
                }
                return None;
            },
        };
        proof {
            lemma_hex_value_bound(s@.subrange(pos as int, pos + 8));
            lemma_pow16_values();
        }
        let c = match char_from_u32_checked(v as u32) {
            Some(c) => c,
            None => {
                proof {
                    assert(!vstd::utf8::is_scalar(hex_value(t.subrange(t.len() - 8, t.len() as int)) as u32));
                    assert(chars_unhex(t) is None);
                    lemma_unhex_none_extend(whole, 8 * (k + 1) as int);
                }
                return None;
            },
        };
        proof {
            vstd::utf8::char_u32_cast(c, v as u32);
            assert(chars_unhex(t) == Some(out@.push(c)));
        }
        push_char(&mut out, c);
        k += 1;
    }
    proof {
        assert(whole.subrange(0, 8 * chunks as int) =~= whole);
    }
    Some(out)
}

} // verus!
