//! The few values that come from outside the library's own logic: fresh
//! identifiers, the clock, and digests.
use vstd::prelude::*;

verus! {

/// A fresh random identifier: `uuid::Uuid::new_v4()` taken as its 128-bit
/// value. Nothing is promised of the value, which is random.
#[verifier::external_body]
pub(crate) fn new_id() -> (id: u128) {
    uuid::Uuid::new_v4().as_u128()
}

/// The current time in microseconds since the Unix epoch, from
/// `chrono::Utc::now().timestamp_micros()`. Nothing is promised of the
/// value, which depends on the clock.
#[verifier::external_body]
pub(crate) fn now_micros() -> (t: i64) {
    chrono::Utc::now().timestamp_micros()
}

/// What `blake3::hash` returns for a byte string, as its 32 bytes.
pub uninterp spec fn blake3_digest(data: Seq<u8>) -> Seq<u8>;

/// `blake3::hash(data).as_bytes()`, copied out. The digest is named
/// `blake3_digest`; the crate documents it as 32 bytes long.
#[verifier::external_body]
pub(crate) fn blake3_hash(data: &[u8]) -> (digest: Vec<u8>)
    ensures
        digest@ == blake3_digest(data@),
        digest@.len() == 32,
{
    blake3::hash(data).as_bytes().to_vec()
}

/// The lower-case hexadecimal digit for a nibble.
pub open spec fn hex_digit(n: u8) -> char {
    if n < 10 {
        (48 + n) as char
    } else {
        (87 + n) as char
    }
}

/// Lower-case hexadecimal text of a byte string: two digits per byte, the
/// high nibble first.
pub open spec fn hex_lower(data: Seq<u8>) -> Seq<char>
    decreases data.len(),
{
    if data.len() == 0 {
        Seq::empty()
    } else {
        hex_lower(data.drop_last()).push(hex_digit(data.last() / 16)).push(
            hex_digit(data.last() % 16),
        )
    }
}

/// `hex::encode`: lower-case hexadecimal text of the bytes, two digits per
/// byte with the high nibble first (hex 0.4's `encode` with its
/// `HEX_CHARS_LOWER` table).
#[verifier::external_body]
pub(crate) fn hex_encode(data: &[u8]) -> (text: String)
    ensures
        text@ == hex_lower(data@),
{
    hex::encode(data)
}

/// How a JSON string escapes one character: `"` and `\` behind a
/// backslash; backspace, tab, line feed, form feed and carriage return as
/// `\b`, `\t`, `\n`, `\f`, `\r`; the other characters below U+0020 as
/// `\u00` and two lower-case hex digits; every other character as itself.
pub open spec fn json_escaped_char(c: char) -> Seq<char> {
    if c == '"' || c == '\\' {
        seq!['\\', c]
    } else if c == '\u{8}' {
        seq!['\\', 'b']
    } else if c == '\t' {
        seq!['\\', 't']
    } else if c == '\n' {
        seq!['\\', 'n']
    } else if c == '\u{c}' {
        seq!['\\', 'f']
    } else if c == '\r' {
        seq!['\\', 'r']
    } else if (c as u32) < 0x20 {
        seq!['\\', 'u', '0', '0', hex_digit((c as u32 / 16) as u8), hex_digit((c as u32 % 16) as u8)]
    } else {
        seq![c]
    }
}

/// The characters of a string, each escaped for JSON.
pub open spec fn json_escaped(s: Seq<char>) -> Seq<char>
    decreases s.len(),
{
    if s.len() == 0 {
        Seq::empty()
    } else {
        json_escaped(s.drop_last()) + json_escaped_char(s.last())
    }
}

/// The JSON string literal of a string: its escaped characters between
/// double quotes.
pub open spec fn json_string_literal(s: Seq<char>) -> Seq<char> {
    seq!['"'] + json_escaped(s) + seq!['"']
}

/// `serde_json::to_string` on a `str`: the JSON literal of the string, as
/// serde_json 1.0's `format_escaped_str` writes it with its `ESCAPE` table
/// and the default formatter's `write_char_escape`. Serializing a string
/// cannot fail, so the wrapper returns the text itself.
#[verifier::external_body]
pub(crate) fn json_quote(s: &str) -> (text: String)
    ensures
        text@ == json_string_literal(s@),
{
    serde_json::to_string(s).unwrap_or_default()
}

/// What `format!("{:?}", s)` writes for a string slice: the string between
/// double quotes, with `char::escape_debug` applied to its characters.
pub uninterp spec fn debug_str(s: Seq<char>) -> Seq<char>;

/// Characters that `escape_debug` leaves unchanged inside a string: ASCII
/// letters, digits, space and punctuation other than `"` and `\`.
pub open spec fn debug_plain(c: char) -> bool {
    ' ' <= c && c <= '~' && c != '"' && c != '\\'
}

/// `format!("{:?}", s)` for a string slice. The result is named
/// `debug_str`; std documents that a string of plain printable ASCII
/// characters comes out between double quotes, unchanged.
#[verifier::external_body]
pub(crate) fn debug_quote(s: &str) -> (text: String)
    ensures
        text@ == debug_str(s@),
        (forall|i: int| 0 <= i < s@.len() ==> debug_plain(#[trigger] s@[i])) ==> text@ == seq![
            '"',
        ] + s@ + seq!['"'],
{
    format!("{:?}", s)
}

/// The sixteen bytes of a 128-bit identifier, most significant first.
pub open spec fn id_bytes(id: u128) -> Seq<u8> {
    Seq::new(16, |i: int| ((id as nat / pow256((15 - i) as nat)) % 256) as u8)
}

pub open spec fn pow256(n: nat) -> nat
    decreases n,
{
    if n == 0 {
        1
    } else {
        256 * pow256((n - 1) as nat)
    }
}

/// The hyphenated lower-case text of a UUID: 32 hex digits in groups of
/// 8, 4, 4, 4 and 12.
pub open spec fn uuid_text(id: u128) -> Seq<char> {
    let h = hex_lower(id_bytes(id));
    h.subrange(0, 8) + "-"@ + h.subrange(8, 12) + "-"@ + h.subrange(12, 16) + "-"@ + h.subrange(
        16,
        20,
    ) + "-"@ + h.subrange(20, 32)
}

/// `uuid::Uuid::from_u128(id).to_string()`: the hyphenated lower-case form
/// that the uuid crate documents for `Display`.
#[verifier::external_body]
pub(crate) fn uuid_string(id: u128) -> (text: String)
    ensures
        text@ == uuid_text(id),
{
    uuid::Uuid::from_u128(id).to_string()
}

} // verus!
