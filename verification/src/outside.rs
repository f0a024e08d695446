//! The calls that leave the library: text services of the standard library
//! that come with large Unicode tables, and the few crates that format sizes,
//! decode URIs and look up the user's directories. Everything stated about
//! them here is taken on trust; nothing else in the crate is.

use chrono::TimeZone;
use vstd::prelude::*;
use vstd::string::*;
use vstd::utf8::*;

verus! {

// ── std ────────────────────────────────────────────────────────────────────

/// `String::push` appends the given character to the end of the string.
pub assume_specification[ String::push ](s: &mut String, c: char)
    ensures
        final(s)@ == old(s)@.push(c),
;

/// Whether a character is a letter or a number in the sense of Unicode, which
/// is what `char::is_alphanumeric` answers.
pub uninterp spec fn unicode_alphanumeric(c: char) -> bool;

/// `char::is_alphanumeric`: true for the characters with the Alphabetic
/// property and for those in one of the general categories for numbers.
#[verifier::external_body]
pub(crate) fn is_alphanumeric(c: char) -> (r: bool)
    ensures
        r == unicode_alphanumeric(c),
{
    c.is_alphanumeric()
}

/// The lowercase form of a text, as `str::to_lowercase` gives it.
pub uninterp spec fn lowercase(text: Seq<char>) -> Seq<char>;

/// `str::to_lowercase`: the lowercase equivalent of the text according to the
/// Unicode property Lowercase.
#[verifier::external_body]
pub(crate) fn to_lowercase(text: &str) -> (r: String)
    ensures
        r@ == lowercase(text@),
{
    text.to_lowercase()
}

/// What `String::from_utf8_lossy` makes of some bytes.
pub uninterp spec fn lossy(bytes: Seq<u8>) -> Seq<char>;

/// `String::from_utf8_lossy`: the text that the bytes encode, with U+FFFD in
/// place of what is not valid UTF-8. Bytes that are valid UTF-8 come back as
/// exactly the text they encode.
#[verifier::external_body]
pub(crate) fn from_utf8_lossy(bytes: &[u8]) -> (r: String)
    ensures
        r@ == lossy(bytes@),
        valid_utf8(bytes@) ==> r@ == decode_utf8(bytes@),
{
    String::from_utf8_lossy(bytes).into_owned()
}

// ── humansize ──────────────────────────────────────────────────────────────

/// A byte count in decimal units, such as `2 MB` or `1.50 kB`, as
/// `humansize::format_size` writes it with its `DECIMAL` options.
pub uninterp spec fn size_text(bytes: u64) -> Seq<char>;

/// `humansize::format_size` with `humansize::DECIMAL`: a function of the byte
/// count alone.
#[verifier::external_body]
pub(crate) fn format_size(bytes: u64) -> (r: String)
    ensures
        r@ == size_text(bytes),
{
    humansize::format_size(bytes, humansize::DECIMAL)
}

// ── urlencoding ────────────────────────────────────────────────────────────

/// The error of `urlencoding::decode`, which is std's.
#[verifier::external_type_specification]
#[verifier::external_body]
pub struct ExFromUtf8Error(std::string::FromUtf8Error);

/// The value of a hexadecimal digit, if the byte is one.
pub open spec fn hex_digit(b: u8) -> Option<u8> {
    if 0x30 <= b <= 0x39 {
        Some((b - 0x30) as u8)
    } else if 0x41 <= b <= 0x46 {
        Some((b - 0x41 + 10) as u8)
    } else if 0x61 <= b <= 0x66 {
        Some((b - 0x61 + 10) as u8)
    } else {
        None
    }
}

/// Percent-decoding: `%` and two hexadecimal digits stand for one byte, every
/// other byte for itself.
pub open spec fn percent_decoded(bytes: Seq<u8>) -> Seq<u8>
    decreases bytes.len(),
{
    if bytes.len() == 0 {
        bytes
    } else if bytes.len() >= 3 && bytes[0] == 0x25 && hex_digit(bytes[1]) is Some && hex_digit(
        bytes[2],
    ) is Some {
        seq![(hex_digit(bytes[1])->0 * 16 + hex_digit(bytes[2])->0) as u8] + percent_decoded(
            bytes.skip(3),
        )
    } else {
        seq![bytes[0]] + percent_decoded(bytes.skip(1))
    }
}

/// `urlencoding::decode`: the text whose UTF-8 bytes are the percent-decoded
/// bytes of the argument, and an error exactly when those are not valid UTF-8.
/// A `+` is not special, and a `%` without two hexadecimal digits stays.
#[verifier::external_body]
pub(crate) fn percent_decode(text: &str) -> (r: Result<String, std::string::FromUtf8Error>)
    ensures
        r is Ok <==> valid_utf8(percent_decoded(encode_utf8(text@))),
        r matches Ok(s) ==> s@ == decode_utf8(percent_decoded(encode_utf8(text@))),
{
    urlencoding::decode(text).map(|decoded| decoded.into_owned())
}

// ── dirs ───────────────────────────────────────────────────────────────────

/// `dirs::home_dir`: the bytes of the user's home directory. On Linux it is
/// `$HOME`, or what the user database has where that is unset or empty; an empty
/// directory there counts as none, so the result is never the empty path. Which
/// directory it is, and whether there is one, depends on the machine, so neither
/// is stated.
#[verifier::external_body]
pub(crate) fn home_dir_bytes() -> (r: Option<Vec<u8>>)
    ensures
        r matches Some(bytes) ==> bytes@.len() > 0,
{
    dirs::home_dir().map(|path| path.as_os_str().as_encoded_bytes().to_vec())
}

/// `dirs::cache_dir`: the bytes of the user's cache directory. On Linux it is
/// `$XDG_CACHE_HOME` where that is an absolute path, and otherwise `.cache` in
/// the home directory, so it is never the empty path. Which directory it is, and
/// whether there is one, depends on the machine, so neither is stated.
#[verifier::external_body]
pub(crate) fn cache_dir_bytes() -> (r: Option<Vec<u8>>)
    ensures
        r matches Some(bytes) ==> bytes@.len() > 0,
{
    dirs::cache_dir().map(|path| path.as_os_str().as_encoded_bytes().to_vec())
}

// ── chrono ─────────────────────────────────────────────────────────────────

/// What `chrono::DateTime::format` writes of a Unix time at an offset of that
/// many seconds from UTC, by a pattern.
pub uninterp spec fn time_text(seconds: i64, offset: i32, pattern: Seq<char>) -> Seq<char>;

/// The first Unix time that `chrono` holds: the start of the year -262143.
pub const EARLIEST_TIME: i64 = -8_334_601_228_800;

/// The last Unix time that `chrono` holds: the end of the year 262142.
pub const LATEST_TIME: i64 = 8_210_266_876_799;

/// `chrono::Local.timestamp_opt` and `DateTime::format`: a Unix time in the
/// machine's own time zone, written by the given pattern; `None` exactly where
/// the time is out of chrono's range. The text is that of the time at some
/// offset from UTC, less than a day either way. Which offset that is depends on
/// the machine, so it is not stated. The pattern is fixed because `format`
/// panics on one that it does not know.
#[verifier::external_body]
pub(crate) fn local_time(seconds: i64, pattern: &str) -> (r: Option<String>)
    requires
        pattern@ == "%d %b %Y %H:%M"@,
    ensures
        r is Some <==> EARLIEST_TIME <= seconds <= LATEST_TIME,
        r matches Some(t) ==> exists|offset: i32|
            -86_400 < offset < 86_400 && t@ == #[trigger] time_text(seconds, offset, pattern@),
{
    chrono::Local.timestamp_opt(seconds, 0).single().map(|time| time.format(pattern).to_string())
}

} // verus!
