//! Big-endian integers and text fields, as the archive lays them out.
//!
//! The spec functions say what a run of bytes means as a number. The
//! executable readers fetch that number from a window, or report that the
//! window ends before the field does. `u16_bytes` and `i16_bytes` go the
//! other way, and serve to state what a decoded record looks like on the
//! wire.

use vstd::prelude::*;
use crate::error::DecodeError;

verus! {

/// The unsigned 16-bit number whose high byte is `hi` and whose low byte is
/// `lo`.
pub open spec fn be_u16(hi: u8, lo: u8) -> u16 {
    (hi * 256 + lo) as u16
}

/// The unsigned 32-bit number with the bytes `b0` (highest) to `b3` (lowest).
pub open spec fn be_u32(b0: u8, b1: u8, b2: u8, b3: u8) -> u32 {
    (((b0 * 256 + b1) * 256 + b2) * 256 + b3) as u32
}

/// `v` read as a two's-complement 8-bit number.
pub open spec fn signed8(v: u8) -> i8 {
    if v >= 0x80 {
        (v - 0x100) as i8
    } else {
        v as i8
    }
}

/// `v` read as a two's-complement 16-bit number.
pub open spec fn signed16(v: u16) -> i16 {
    if v >= 0x8000 {
        (v - 0x1_0000) as i16
    } else {
        v as i16
    }
}

/// `v` read as a two's-complement 32-bit number.
pub open spec fn signed32(v: u32) -> i32 {
    if v >= 0x8000_0000 {
        (v - 0x1_0000_0000) as i32
    } else {
        v as i32
    }
}

/// The bit pattern of `v`, as an unsigned 16-bit number.
pub open spec fn unsigned16(v: i16) -> u16 {
    if v < 0 {
        (v + 0x1_0000) as u16
    } else {
        v as u16
    }
}

/// Whether `n` bytes lie in `w` from position `at` on.
pub open spec fn holds(w: Seq<u8>, at: int, n: int) -> bool {
    0 <= at && at + n <= w.len()
}

/// The byte of `w` at `at`, unsigned.
pub open spec fn u8_at(w: Seq<u8>, at: int) -> u8 {
    w[at]
}

/// The byte of `w` at `at`, signed.
pub open spec fn i8_at(w: Seq<u8>, at: int) -> i8 {
    signed8(w[at])
}

/// The big-endian unsigned halfword of `w` at `at`.
pub open spec fn u16_at(w: Seq<u8>, at: int) -> u16 {
    be_u16(w[at], w[at + 1])
}

/// The big-endian signed halfword of `w` at `at`.
pub open spec fn i16_at(w: Seq<u8>, at: int) -> i16 {
    signed16(u16_at(w, at))
}

/// The big-endian unsigned word of `w` at `at`.
pub open spec fn u32_at(w: Seq<u8>, at: int) -> u32 {
    be_u32(w[at], w[at + 1], w[at + 2], w[at + 3])
}

/// The big-endian signed word of `w` at `at`.
pub open spec fn i32_at(w: Seq<u8>, at: int) -> i32 {
    signed32(u32_at(w, at))
}

/// The two bytes that hold `v`, high byte first.
pub open spec fn u16_bytes(v: u16) -> Seq<u8> {
    seq![(v / 256) as u8, (v % 256) as u8]
}

/// The two bytes that hold `v` in two's complement, high byte first.
pub open spec fn i16_bytes(v: i16) -> Seq<u8> {
    u16_bytes(unsigned16(v))
}

/// Whether every byte of `bytes` is an ASCII character.
pub open spec fn is_text(bytes: Seq<u8>) -> bool {
    forall|i: int| 0 <= i < bytes.len() ==> bytes[i] < 0x80
}

/// The characters that the ASCII bytes `bytes` stand for, one per byte.
pub open spec fn text_of(bytes: Seq<u8>) -> Seq<char> {
    Seq::new(bytes.len(), |i: int| bytes[i] as char)
}

/// The fault of a read of `n` bytes at `at` that the window cannot serve.
pub open spec fn truncated(at: usize, n: usize) -> DecodeError {
    DecodeError::Truncated { offset: at, needed: n }
}

/// What reading an ASCII field of `n` bytes at `at` reports when it fails,
/// and nothing when the field is there and is text.
pub open spec fn text_fault(w: Seq<u8>, at: usize, n: usize) -> Option<DecodeError> {
    if !holds(w, at as int, n as int) {
        Some(truncated(at, n))
    } else if !is_text(w.subrange(at as int, at + n)) {
        Some(DecodeError::MalformedHeader { offset: at })
    } else {
        None
    }
}

/// What reading a UTF-8 field of `n` bytes at `at` reports when it fails,
/// and nothing when the field is there and is valid UTF-8.
pub open spec fn utf8_fault(w: Seq<u8>, at: usize, n: usize) -> Option<DecodeError> {
    if !holds(w, at as int, n as int) {
        Some(truncated(at, n))
    } else if !vstd::utf8::valid_utf8(w.subrange(at as int, at + n)) {
        Some(DecodeError::MalformedHeader { offset: at })
    } else {
        None
    }
}

/// ASCII text is valid UTF-8, and read as UTF-8 it gives the same
/// characters, one per byte.
pub proof fn text_is_utf8(bytes: Seq<u8>)
    requires
        is_text(bytes),
    ensures
        vstd::utf8::valid_utf8(bytes),
        vstd::utf8::decode_utf8(bytes) == text_of(bytes),
{
    let chars = text_of(bytes);
    assert(vstd::utf8::is_ascii_chars(chars)) by {
        assert forall|i: int| 0 <= i < chars.len() implies '\0' <= #[trigger] chars[i]
            <= '\u{7f}' by {
            let b = bytes[i];
            assert(b < 0x80);
            assert(chars[i] == b as char);
        }
    }
    vstd::utf8::is_ascii_chars_encode_utf8(chars);
    assert(vstd::utf8::encode_utf8(chars) =~= bytes) by {
        assert forall|i: int| 0 <= i < bytes.len() implies vstd::utf8::encode_utf8(chars)[i]
            == bytes[i] by {
            let b = bytes[i];
            assert(chars[i] == b as char);
            assert((b as char) as u8 == b);
        }
    }
    vstd::utf8::encode_utf8_valid_utf8(chars);
    vstd::utf8::encode_utf8_decode_utf8(chars);
}

/// Reading a halfword and writing it back gives the same two bytes.
pub proof fn u16_bytes_of_u16_at(w: Seq<u8>, at: int)
    requires
        holds(w, at, 2),
    ensures
        u16_bytes(u16_at(w, at)) == w.subrange(at, at + 2),
{
    let hi = w[at];
    let lo = w[at + 1];
    assert((hi * 256 + lo) / 256 == hi && (hi * 256 + lo) % 256 == lo);
    assert(u16_bytes(u16_at(w, at)) =~= w.subrange(at, at + 2));
}

/// Reading a signed halfword and writing it back gives the same two bytes.
pub proof fn i16_bytes_of_i16_at(w: Seq<u8>, at: int)
    requires
        holds(w, at, 2),
    ensures
        i16_bytes(i16_at(w, at)) == w.subrange(at, at + 2),
{
    u16_bytes_of_u16_at(w, at);
    assert(unsigned16(signed16(u16_at(w, at))) == u16_at(w, at));
}

/// Writing a halfword and reading it back gives the same number.
pub proof fn u16_at_of_u16_bytes(w: Seq<u8>, at: int, v: u16)
    requires
        holds(w, at, 2),
        w.subrange(at, at + 2) == u16_bytes(v),
    ensures
        u16_at(w, at) == v,
{
    let s = w.subrange(at, at + 2);
    assert(w[at] == s[0] && w[at + 1] == s[1]);
    assert((v / 256) * 256 + v % 256 == v);
}

/// Writing a signed halfword and reading it back gives the same number.
pub proof fn i16_at_of_i16_bytes(w: Seq<u8>, at: int, v: i16)
    requires
        holds(w, at, 2),
        w.subrange(at, at + 2) == i16_bytes(v),
    ensures
        i16_at(w, at) == v,
{
    u16_at_of_u16_bytes(w, at, unsigned16(v));
    assert(signed16(unsigned16(v)) == v);
}

/// Assembles an unsigned halfword from its two bytes.
pub fn u16_from_be(hi: u8, lo: u8) -> (v: u16)
    ensures
        v == be_u16(hi, lo),
{
    (hi as u16) * 256 + (lo as u16)
}

/// Assembles an unsigned word from its four bytes.
pub fn u32_from_be(b0: u8, b1: u8, b2: u8, b3: u8) -> (v: u32)
    ensures
        v == be_u32(b0, b1, b2, b3),
{
    (((b0 as u32) * 256 + (b1 as u32)) * 256 + (b2 as u32)) * 256 + (b3 as u32)
}

/// Reads a byte as a two's-complement number.
pub fn i8_from_u8(v: u8) -> (r: i8)
    ensures
        r == signed8(v),
{
    if v >= 0x80 {
        ((v - 0x80) as i8) + i8::MIN
    } else {
        v as i8
    }
}

/// Reads a halfword as a two's-complement number.
pub fn i16_from_u16(v: u16) -> (r: i16)
    ensures
        r == signed16(v),
{
    if v >= 0x8000 {
        ((v - 0x8000) as i16) + i16::MIN
    } else {
        v as i16
    }
}

/// Reads a word as a two's-complement number.
pub fn i32_from_u32(v: u32) -> (r: i32)
    ensures
        r == signed32(v),
{
    if v >= 0x8000_0000 {
        ((v - 0x8000_0000) as i32) + i32::MIN
    } else {
        v as i32
    }
}

/// Whether `n` bytes can be read from `window` at `at`.
pub fn has_bytes(window: &[u8], at: usize, n: usize) -> (b: bool)
    ensures
        b == holds(window@, at as int, n as int),
        b ==> at + n <= usize::MAX,
{
    at <= window.len() && n <= window.len() - at
}

/// The signed byte at `at`, which the caller knows to be in the window.
pub(crate) fn i8_in(window: &[u8], at: usize) -> (v: i8)
    requires
        holds(window@, at as int, 1),
    ensures
        v == i8_at(window@, at as int),
{
    i8_from_u8(window[at])
}

/// The unsigned halfword at `at`, which the caller knows to be in the window.
pub(crate) fn u16_in(window: &[u8], at: usize) -> (v: u16)
    requires
        holds(window@, at as int, 2),
    ensures
        v == u16_at(window@, at as int),
{
    u16_from_be(window[at], window[at + 1])
}

/// The signed halfword at `at`, which the caller knows to be in the window.
pub(crate) fn i16_in(window: &[u8], at: usize) -> (v: i16)
    requires
        holds(window@, at as int, 2),
    ensures
        v == i16_at(window@, at as int),
{
    i16_from_u16(u16_in(window, at))
}

/// The unsigned word at `at`, which the caller knows to be in the window.
pub(crate) fn u32_in(window: &[u8], at: usize) -> (v: u32)
    requires
        holds(window@, at as int, 4),
    ensures
        v == u32_at(window@, at as int),
{
    u32_from_be(window[at], window[at + 1], window[at + 2], window[at + 3])
}

/// The signed word at `at`, which the caller knows to be in the window.
pub(crate) fn i32_in(window: &[u8], at: usize) -> (v: i32)
    requires
        holds(window@, at as int, 4),
    ensures
        v == i32_at(window@, at as int),
{
    i32_from_u32(u32_in(window, at))
}

/// Reads the unsigned halfword at `at`, or fails with `Truncated` when the
/// window ends before its second byte.
pub fn read_u16(window: &[u8], at: usize) -> (r: Result<u16, DecodeError>)
    ensures
        r == (if holds(window@, at as int, 2) {
            Ok(u16_at(window@, at as int))
        } else {
            Err(truncated(at, 2))
        }),
        r is Ok ==> at + 2 <= usize::MAX,
{
    if has_bytes(window, at, 2) {
        Ok(u16_in(window, at))
    } else {
        Err(DecodeError::Truncated { offset: at, needed: 2 })
    }
}

/// Reads the signed halfword at `at`, or fails with `Truncated` when the
/// window ends before its second byte.
pub fn read_i16(window: &[u8], at: usize) -> (r: Result<i16, DecodeError>)
    ensures
        r == (if holds(window@, at as int, 2) {
            Ok(i16_at(window@, at as int))
        } else {
            Err(truncated(at, 2))
        }),
        r is Ok ==> at + 2 <= usize::MAX,
{
    if has_bytes(window, at, 2) {
        Ok(i16_in(window, at))
    } else {
        Err(DecodeError::Truncated { offset: at, needed: 2 })
    }
}

/// Reads the signed word at `at`, or fails with `Truncated` when the window
/// ends before its fourth byte.
pub fn read_i32(window: &[u8], at: usize) -> (r: Result<i32, DecodeError>)
    ensures
        r == (if holds(window@, at as int, 4) {
            Ok(i32_at(window@, at as int))
        } else {
            Err(truncated(at, 4))
        }),
        r is Ok ==> at + 4 <= usize::MAX,
{
    if has_bytes(window, at, 4) {
        Ok(i32_in(window, at))
    } else {
        Err(DecodeError::Truncated { offset: at, needed: 4 })
    }
}

/// `String::push` of std, which appends one character to the string and
/// leaves the characters before it as they were.
#[verifier::external_body]
fn push_char(s: &mut String, c: char)
    ensures
        final(s)@ == old(s)@.push(c),
{
    s.push(c);
}

/// Reads the ASCII field of `n` bytes at `at` as a string of `n` characters.
///
/// Fails with `Truncated` when the window ends inside the field, and with
/// `MalformedHeader` at the field's offset when a byte of it is not ASCII.
pub fn read_text(window: &[u8], at: usize, n: usize) -> (r: Result<String, DecodeError>)
    ensures
        match r {
            Ok(s) => text_fault(window@, at, n) is None && s@ == text_of(
                window@.subrange(at as int, at + n),
            ),
            Err(e) => text_fault(window@, at, n) == Some(e),
        },
{
    if !has_bytes(window, at, n) {
        return Err(DecodeError::Truncated { offset: at, needed: n });
    }
    let ghost field = window@.subrange(at as int, at + n);
    let mut s = String::new();
    let mut i: usize = 0;
    while i < n
        invariant
            i <= n,
            at + n <= usize::MAX,
            holds(window@, at as int, n as int),
            field == window@.subrange(at as int, at + n),
            is_text(field.subrange(0, i as int)),
            s@ == text_of(field.subrange(0, i as int)),
        decreases n - i,
    {
        let b: u8 = window[at + i];
        assert(b == field[i as int]);
        if b >= 0x80 {
            return Err(DecodeError::MalformedHeader { offset: at });
        }
        push_char(&mut s, b as char);
        assert(field.subrange(0, i + 1) =~= field.subrange(0, i as int).push(b));
        assert(text_of(field.subrange(0, i + 1)) =~= text_of(field.subrange(0, i as int)).push(
            b as char,
        ));
        i = i + 1;
    }
    assert(field.subrange(0, n as int) =~= field);
    Ok(s)
}

/// `std::str::from_utf8`, which takes the bytes for a string exactly when
/// they are valid UTF-8: the string then holds the characters that the
/// bytes encode, and any other input is refused.
#[verifier::external_body]
fn utf8_str(bytes: &[u8]) -> (r: Option<&str>)
    ensures
        match r {
            Some(s) => vstd::utf8::valid_utf8(bytes@) && s@ == vstd::utf8::decode_utf8(bytes@),
            None => !vstd::utf8::valid_utf8(bytes@),
        },
{
    match std::str::from_utf8(bytes) {
        Ok(s) => Some(s),
        Err(_) => None,
    }
}

/// Reads the UTF-8 field of `n` bytes at `at` as the string that the bytes
/// encode.
///
/// Fails with `Truncated` when the window ends inside the field, and with
/// `MalformedHeader` at the field's offset when its bytes are not valid
/// UTF-8.
pub fn read_utf8(window: &[u8], at: usize, n: usize) -> (r: Result<String, DecodeError>)
    ensures
        match r {
            Ok(s) => utf8_fault(window@, at, n) is None && s@ == vstd::utf8::decode_utf8(
                window@.subrange(at as int, at + n),
            ),
            Err(e) => utf8_fault(window@, at, n) == Some(e),
        },
{
    if !has_bytes(window, at, n) {
        return Err(DecodeError::Truncated { offset: at, needed: n });
    }
    match utf8_str(vstd::slice::slice_subrange(window, at, at + n)) {
        Some(s) => Ok(s.to_owned()),
        None => Err(DecodeError::MalformedHeader { offset: at }),
    }
}

} // verus!
