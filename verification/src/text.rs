//! UTF-8 text and error messages.
use vstd::prelude::*;
use vstd::utf8::*;

use crate::codec::head::parse_uint;

verus! {

/// `String::from_utf8` on a copy of the slice. By std's documentation it
/// succeeds exactly on valid UTF-8, and the string then holds the decoded
/// characters; on failure the text of std's error is handed back.
#[verifier::external_body]
pub(crate) fn utf8_string(bytes: &[u8]) -> (r: core::result::Result<String, String>)
    ensures
        r is Ok <==> valid_utf8(bytes@),
        r matches Ok(s) ==> s@ == decode_utf8(bytes@),
{
    match String::from_utf8(bytes.to_vec()) {
        Ok(s) => Ok(s),
        Err(err) => Err(err.to_string()),
    }
}

/// The character of the digit `d`: `0`-`9`, then lower-case `a`-`f`.
pub open spec fn digit_char(d: nat) -> char {
    if d < 10 {
        ((d + 48) as u32) as char
    } else {
        ((d + 87) as u32) as char
    }
}

/// The decimal digits of `n`, without leading zeros, as `Display` writes
/// an integer.
pub open spec fn decimal_text(n: nat) -> Seq<char>
    decreases n,
{
    if n < 10 {
        seq![digit_char(n)]
    } else {
        decimal_text(n / 10).push(digit_char(n % 10))
    }
}

/// The lower-case hexadecimal digits of `n`, without leading zeros, as
/// `LowerHex` writes an integer.
pub open spec fn hex_text(n: nat) -> Seq<char>
    decreases n,
{
    if n < 16 {
        seq![digit_char(n)]
    } else {
        hex_text(n / 16).push(digit_char(n % 16))
    }
}

/// `format!("{prefix}{value}")`: the prefix, then the value in decimal.
#[verifier::external_body]
pub(crate) fn message_with_number(prefix: &str, value: u64) -> (r: String)
    ensures
        r@ == prefix@ + decimal_text(value as nat),
{
    format!("{prefix}{value}")
}

/// `format!("{prefix}{value:#x}")`: the prefix, then `0x` and the value in
/// lower-case hexadecimal.
#[verifier::external_body]
pub(crate) fn message_with_hex(prefix: &str, value: u64) -> (r: String)
    ensures
        r@ == prefix@ + "0x"@ + hex_text(value as nat),
{
    format!("{prefix}{value:#x}")
}

/// `u8::try_from` on a `usize`: by std's documentation it fails exactly
/// when the value is out of the target's range; the error's text is handed
/// back.
#[verifier::external_body]
pub(crate) fn u8_from_usize(value: usize) -> (r: core::result::Result<u8, String>)
    ensures
        r is Ok <==> value <= u8::MAX,
        r matches Ok(v) ==> v == value,
{
    match u8::try_from(value) {
        Ok(v) => Ok(v),
        Err(err) => Err(err.to_string()),
    }
}

/// `u16::try_from` on a `usize`: by std's documentation it fails exactly
/// when the value is out of the target's range; the error's text is handed
/// back.
#[verifier::external_body]
pub(crate) fn u16_from_usize(value: usize) -> (r: core::result::Result<u16, String>)
    ensures
        r is Ok <==> value <= u16::MAX,
        r matches Ok(v) ==> v == value,
{
    match u16::try_from(value) {
        Ok(v) => Ok(v),
        Err(err) => Err(err.to_string()),
    }
}

/// `u32::try_from` on a `usize`: by std's documentation it fails exactly
/// when the value is out of the target's range; the error's text is handed
/// back.
#[verifier::external_body]
pub(crate) fn u32_from_usize(value: usize) -> (r: core::result::Result<u32, String>)
    ensures
        r is Ok <==> value <= u32::MAX,
        r matches Ok(v) ==> v == value,
{
    match u32::try_from(value) {
        Ok(v) => Ok(v),
        Err(err) => Err(err.to_string()),
    }
}

/// `usize::try_from` on a `u64`: by std's documentation it fails exactly
/// when the value is out of the target's range; the error's text is handed
/// back.
#[verifier::external_body]
pub(crate) fn usize_from_u64(value: u64) -> (r: core::result::Result<usize, String>)
    ensures
        r is Ok <==> value <= usize::MAX,
        r matches Ok(v) ==> v == value,
{
    match usize::try_from(value) {
        Ok(v) => Ok(v),
        Err(err) => Err(err.to_string()),
    }
}

/// `format!("{prefix}{detail}")`: a message with a detail appended, the
/// two texts one after the other.
#[verifier::external_body]
pub(crate) fn message_with_text(prefix: &str, detail: &str) -> (r: String)
    ensures
        r@ == prefix@ + detail@,
{
    format!("{prefix}{detail}")
}

/// The text of the `ParseIntError` that `usize::from_str_radix` gives for
/// `text` in `radix`.
pub uninterp spec fn usize_parse_error(text: Seq<char>, radix: nat) -> Seq<char>;

/// `usize::from_str_radix`. By std's documentation it succeeds exactly on
/// an optional `+` followed by digits of the radix whose value fits
/// `usize`, and gives that value; on failure the text of the error is handed
/// back. It panics on a radix outside 2 to 36, which `requires` leaves out.
#[verifier::external_body]
pub(crate) fn usize_from_str_radix(text: &str, radix: u32) -> (r: core::result::Result<usize, String>)
    requires
        2 <= radix <= 36,
    ensures
        r is Ok <==> parse_uint(text@, radix as nat) is Some,
        r matches Ok(v) ==> parse_uint(text@, radix as nat) == Some(v as nat),
        r matches Err(m) ==> m@ == usize_parse_error(text@, radix as nat),
{
    match usize::from_str_radix(text, radix) {
        Ok(v) => Ok(v),
        Err(err) => Err(err.to_string()),
    }
}

/// An owned copy of a string slice.
pub(crate) fn owned(s: &str) -> (r: String)
    ensures
        r@ == s@,
{
    s.to_owned()
}

} // verus!
