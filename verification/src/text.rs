//! Character-level string helpers: equality, ASCII case folding, and
//! prefix handling, all verified against `Seq<char>` views.

use vstd::prelude::*;
use vstd::string::*;

verus! {

/// Character-by-character string equality.
pub fn str_eq(a: &str, b: &str) -> (r: bool)
    ensures
        r == (a@ == b@),
{
    let alen = a.unicode_len();
    let blen = b.unicode_len();
    if alen != blen {
        return false;
    }
    let mut i: usize = 0;
    while i < alen
        invariant
            alen == a@.len(),
            alen == b@.len(),
            i <= alen,
            forall|j: int| 0 <= j < i ==> a@[j] == b@[j],
        decreases alen - i,
    {
        if a.get_char(i) != b.get_char(i) {
            return false;
        }
        i += 1;
    }
    proof {
        assert(a@ =~= b@);
    }
    true
}

/// ASCII lower-casing of one character; everything else is untouched.
pub open spec fn fold_char(c: char) -> char {
    if 'A' <= c && c <= 'Z' {
        ((c as u32) + 32) as char
    } else {
        c
    }
}

/// ASCII lower-casing of a whole string, the folding under which emails
/// are compared for uniqueness.
pub open spec fn fold_chars(s: Seq<char>) -> Seq<char> {
    s.map_values(|c: char| fold_char(c))
}

/// Lower-case a single ASCII letter, leaving all other characters alone.
fn fold_char_exec(c: char) -> (r: char)
    ensures
        r == fold_char(c),
{
    if 'A' <= c && c <= 'Z' {
        let v = (c as u32) + 32;
        proof {
            vstd::utf8::char_is_scalar(c);
        }
        char_from_valid_u32(v)
    } else {
        c
    }
}

/// Turn a value known to be a Unicode scalar back into a `char`.
///
/// Relies on `char::from_u32` (std): it returns `Some` exactly on Unicode
/// scalar values, and the returned character casts back to the input.
#[verifier::external_body]
pub(crate) fn char_from_u32_checked(v: u32) -> (r: Option<char>)
    ensures
        r matches Some(c) ==> c as u32 == v,
        r is Some <==> vstd::utf8::is_scalar(v),
{
    char::from_u32(v)
}

/// `char::from_u32` restricted to values already known to be scalars.
pub fn char_from_valid_u32(v: u32) -> (r: char)
    requires
        vstd::utf8::is_scalar(v),
    ensures
        r as u32 == v,
        r == v as char,
{
    let c = match char_from_u32_checked(v) {
        Some(c) => c,
        None => ' ',
    };
    proof {
        vstd::utf8::char_u32_cast(c, v);
    }
    c
}

/// ASCII-fold a string to lower case, for case-insensitive email comparison.
pub fn ascii_lower(s: &str) -> (r: String)
    ensures
        r@ == fold_chars(s@),
{
    let len = s.unicode_len();
    let mut out = String::new();
    let mut i: usize = 0;
    while i < len
        invariant
            len == s@.len(),
            i <= len,
            out@ == fold_chars(s@.subrange(0, i as int)),
        decreases len - i,
    {
        let c = s.get_char(i);
        let f = fold_char_exec(c);
        push_char(&mut out, f);
        proof {
            assert(s@.subrange(0, i + 1).map_values(|c: char| fold_char(c))
                =~= s@.subrange(0, i as int).map_values(|c: char| fold_char(c)).push(fold_char(s@[i as int])));
        }
        i += 1;
    }
    proof {
        assert(s@.subrange(0, len as int) =~= s@);
    }
    out
}

/// Append one character to a string.
///
/// Relies on `String::push` (std): it appends exactly the given character.
#[verifier::external_body]
pub(crate) fn push_char(s: &mut String, c: char)
    ensures
        final(s)@ == old(s)@.push(c),
{
    s.push(c);
}

/// If `s` starts with `prefix`, the rest of `s`; otherwise nothing.
pub fn strip_prefix_of(s: &str, prefix: &str) -> (r: Option<String>)
    ensures
        match r {
            Some(rest) => s@ == prefix@ + rest@,
            None => !(s@.len() >= prefix@.len() && s@.subrange(0, prefix@.len() as int) == prefix@),
        },
{
    let slen = s.unicode_len();
    let plen = prefix.unicode_len();
    if slen < plen {
        return None;
    }
    let mut i: usize = 0;
    while i < plen
        invariant
            slen == s@.len(),
            plen == prefix@.len(),
            plen <= slen,
            i <= plen,
            forall|j: int| 0 <= j < i ==> s@[j] == prefix@[j],
        decreases plen - i,
    {
        if s.get_char(i) != prefix.get_char(i) {
            proof {
                assert(s@.subrange(0, plen as int)[i as int] != prefix@[i as int]);
            }
            return None;
        }
        i += 1;
    }
    let rest = s.substring_char(plen, slen);
    proof {
        assert(s@ =~= prefix@ + rest@);
    }
    Some(rest.to_owned())
}

} // verus!
