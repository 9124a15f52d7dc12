//! Small text utilities shared by the extraction components: building
//! strings from bytes, decimal rendering of numbers, and ASCII case folding.

use vstd::prelude::*;
use vstd::string::StrSliceExecFns;
use vstd::utf8::{decode_utf8, is_scalar, valid_utf8};

verus! {

/// Turns a byte vector into a `String` when the bytes are valid UTF-8.
///
/// Relies on `String::from_utf8`: it succeeds exactly on valid UTF-8 input
/// and then yields the string whose characters are the decoded scalars.
#[verifier::external_body]
pub(crate) fn string_from_utf8(v: Vec<u8>) -> (r: Option<String>)
    ensures
        r is Some <==> valid_utf8(v@),
        r matches Some(s) ==> s@ == decode_utf8(v@),
{
    match String::from_utf8(v) {
        Ok(s) => Some(s),
        Err(_) => None,
    }
}

/// Appends one character to a string.
///
/// Relies on `String::push`: the string afterwards is the old string with
/// exactly that character appended.
#[verifier::external_body]
pub(crate) fn string_push(s: &mut String, c: char)
    ensures
        final(s)@ == old(s)@.push(c),
{
    s.push(c);
}

/// Turns a Unicode scalar value into the character with that value.
///
/// Relies on `char::from_u32`: it returns `Some` exactly on scalar values,
/// and then the character with the given value.
#[verifier::external_body]
pub(crate) fn char_from_u32(u: u32) -> (c: char)
    requires
        is_scalar(u),
    ensures
        c == u as char,
{
    char::from_u32(u).unwrap()
}

/// The character for one decimal digit.
pub open spec fn spec_digit_char(d: int) -> char
    recommends
        0 <= d < 10,
{
    ((48 + d) as u32) as char
}

/// The decimal rendering of a number, most significant digit first.
pub open spec fn spec_decimal(n: nat) -> Seq<char>
    decreases n,
{
    if n < 10 {
        seq![spec_digit_char(n as int)]
    } else {
        spec_decimal(n / 10) + seq![spec_digit_char((n % 10) as int)]
    }
}

/// Appends the decimal rendering of `n` to `s`.
fn push_decimal(n: u64, s: &mut String)
    ensures
        final(s)@ == old(s)@ + spec_decimal(n as nat),
    decreases n,
{
    if n < 10 {
        let c = char_from_u32(48 + (n as u32));
        string_push(s, c);
        assert(final(s)@ =~= old(s)@ + spec_decimal(n as nat));
    } else {
        push_decimal(n / 10, s);
        let c = char_from_u32(48 + ((n % 10) as u32));
        string_push(s, c);
        assert(final(s)@ =~= old(s)@ + spec_decimal(n as nat));
    }
}

/// The decimal rendering of `n` as a `String`.
pub fn u64_to_decimal(n: u64) -> (s: String)
    ensures
        s@ == spec_decimal(n as nat),
{
    let mut s = String::new();
    push_decimal(n, &mut s);
    assert(s@ =~= spec_decimal(n as nat));
    s
}

/// The character for one uppercase hexadecimal digit.
pub open spec fn spec_hex_digit_upper(d: int) -> char
    recommends
        0 <= d < 16,
{
    if d < 10 {
        ((48 + d) as u32) as char
    } else {
        ((55 + d) as u32) as char
    }
}

/// The hexadecimal rendering of a number, upper case, without leading zeroes.
pub open spec fn spec_hex_upper(n: nat) -> Seq<char>
    decreases n,
{
    if n < 16 {
        seq![spec_hex_digit_upper(n as int)]
    } else {
        spec_hex_upper(n / 16) + seq![spec_hex_digit_upper((n % 16) as int)]
    }
}

/// Appends one uppercase hexadecimal digit to a string.
fn push_hex_digit_upper(d: u64, s: &mut String)
    requires
        d < 16,
    ensures
        final(s)@ == old(s)@.push(spec_hex_digit_upper(d as int)),
{
    let c = if d < 10 {
        char_from_u32(48 + (d as u32))
    } else {
        char_from_u32(55 + (d as u32))
    };
    string_push(s, c);
}

/// Appends the uppercase hexadecimal rendering of `n` to `s`.
fn push_hex_upper(n: u64, s: &mut String)
    ensures
        final(s)@ == old(s)@ + spec_hex_upper(n as nat),
    decreases n,
{
    if n < 16 {
        push_hex_digit_upper(n, s);
        assert(final(s)@ =~= old(s)@ + spec_hex_upper(n as nat));
    } else {
        push_hex_upper(n / 16, s);
        push_hex_digit_upper(n % 16, s);
        assert(final(s)@ =~= old(s)@ + spec_hex_upper(n as nat));
    }
}

/// The uppercase hexadecimal rendering of `n` as a `String`.
pub fn u64_to_hex_upper(n: u64) -> (s: String)
    ensures
        s@ == spec_hex_upper(n as nat),
{
    let mut s = String::new();
    push_hex_upper(n, &mut s);
    assert(s@ =~= spec_hex_upper(n as nat));
    s
}

/// One character folded to lower case; only ASCII letters change.
pub open spec fn spec_lower_char(c: char) -> char {
    if 65 <= c as u32 <= 90 {
        ((c as u32 + 32) as u32) as char
    } else {
        c
    }
}

/// A character sequence folded to lower case, character by character.
pub open spec fn spec_lower(s: Seq<char>) -> Seq<char> {
    s.map_values(|c: char| spec_lower_char(c))
}

/// Folds one character to lower case.
fn lower_char(c: char) -> (r: char)
    ensures
        r == spec_lower_char(c),
{
    let u = c as u32;
    if 65 <= u && u <= 90 {
        char_from_u32(u + 32)
    } else {
        c
    }
}

/// Folds a string to lower case, character by character; only ASCII letters
/// change, every other character passes through unchanged.
pub fn to_lowercase(s: &str) -> (r: String)
    ensures
        r@ == spec_lower(s@),
{
    let len = s.unicode_len();
    let mut r = String::new();
    assert(r@ =~= spec_lower(s@.subrange(0, 0)));
    for i in 0..len
        invariant
            len == s@.len(),
            r@ == spec_lower(s@.subrange(0, i as int)),
    {
        let c = s.get_char(i);
        let l = lower_char(c);
        string_push(&mut r, l);
        assert(s@.subrange(0, i + 1) =~= s@.subrange(0, i as int).push(c));
        assert(r@ =~= spec_lower(s@.subrange(0, i + 1)));
    }
    assert(s@.subrange(0, len as int) =~= s@);
    r
}

/// Whether a 16-bit unit is a leading (high) surrogate.
pub open spec fn spec_is_high_surrogate(u: u16) -> bool {
    0xD800 <= u < 0xDC00
}

/// Whether a 16-bit unit is a trailing (low) surrogate.
pub open spec fn spec_is_low_surrogate(u: u16) -> bool {
    0xDC00 <= u < 0xE000
}

/// UTF-16 decoding: a unit outside the surrogate range stands for itself, a
/// leading surrogate combines with a trailing one, and an unpaired
/// surrogate fails the whole decoding.
pub open spec fn spec_decode_utf16(units: Seq<u16>) -> Option<Seq<char>>
    decreases units.len(),
{
    if units.len() == 0 {
        Some(Seq::empty())
    } else if spec_is_high_surrogate(units[0]) {
        if units.len() >= 2 && spec_is_low_surrogate(units[1]) {
            let c = ((0x10000 + (units[0] - 0xD800) * 0x400 + (units[1] - 0xDC00)) as u32) as char;
            match spec_decode_utf16(units.skip(2)) {
                Some(rest) => Some(seq![c] + rest),
                None => None,
            }
        } else {
            None
        }
    } else if spec_is_low_surrogate(units[0]) {
        None
    } else {
        let c = (units[0] as u32) as char;
        match spec_decode_utf16(units.skip(1)) {
            Some(rest) => Some(seq![c] + rest),
            None => None,
        }
    }
}

/// Decodes UTF-16 units to a string; an unpaired surrogate yields `None`.
pub fn decode_utf16_units(units: &Vec<u16>) -> (r: Option<String>)
    ensures
        r is Some <==> spec_decode_utf16(units@) is Some,
        r matches Some(s) ==> spec_decode_utf16(units@) == Some(s@),
{
    let n = units.len();
    let mut s = String::new();
    let mut i: usize = 0;
    assert(units@.skip(0) =~= units@);
    while i < n
        invariant
            i <= n,
            n == units@.len(),
            spec_decode_utf16(units@) is Some <==> spec_decode_utf16(units@.skip(i as int))
                is Some,
            spec_decode_utf16(units@.skip(i as int)) matches Some(rest) ==> spec_decode_utf16(
                units@,
            ) == Some(s@ + rest),
        decreases n - i,
    {
        let u = units[i];
        proof {
            assert(units@.skip(i as int)[0] == units@[i as int]);
        }
        if 0xD800 <= u && u < 0xDC00 {
            if i + 1 < n {
                let u2 = units[i + 1];
                proof {
                    assert(units@.skip(i as int)[1] == units@[i + 1]);
                }
                if 0xDC00 <= u2 && u2 < 0xE000 {
                    let v: u32 = 0x10000 + ((u - 0xD800) as u32) * 0x400 + ((u2 - 0xDC00) as u32);
                    let c = char_from_u32(v);
                    string_push(&mut s, c);
                    proof {
                        assert(units@.skip(i as int).skip(2) =~= units@.skip(i + 2));
                    }
                    i = i + 2;
                } else {
                    return None;
                }
            } else {
                return None;
            }
        } else if 0xDC00 <= u && u < 0xE000 {
            return None;
        } else {
            let c = char_from_u32(u as u32);
            string_push(&mut s, c);
            proof {
                assert(units@.skip(i as int).skip(1) =~= units@.skip(i + 1));
            }
            i = i + 1;
        }
    }
    assert(units@.skip(n as int) =~= Seq::<u16>::empty());
    assert(s@ + Seq::<char>::empty() =~= s@);
    Some(s)
}

} // verus!
