//! Bytes as text: base64 for images and the clipboard, form encoding for queries.

use crate::text;
use vstd::prelude::*;
use vstd::string::*;

verus! {

/// The text that base64 with the standard alphabet and padding makes of some bytes.
pub uninterp spec fn base64_text(bytes: Seq<u8>) -> Seq<char>;

/// The bytes that a text in base64 with the standard alphabet and padding stands for.
pub uninterp spec fn base64_bytes(s: Seq<char>) -> Option<Seq<u8>>;

/// A character of the standard base64 alphabet, or its padding.
pub open spec fn is_base64_char(c: char) -> bool {
    ||| 'A' <= c <= 'Z'
    ||| 'a' <= c <= 'z'
    ||| '0' <= c <= '9'
    ||| c == '+'
    ||| c == '/'
    ||| c == '='
}

/// A text made of such characters.
pub open spec fn is_base64(s: Seq<char>) -> bool {
    forall|i: int| 0 <= i < s.len() ==> is_base64_char(#[trigger] s[i])
}

/// `Engine::encode` of base64 with `general_purpose::STANDARD`, by the name of its result.
/// The text is made of the alphabet's characters, and decodes to the bytes again.
#[verifier::external_body]
pub(crate) fn encode_base64(bytes: &Vec<u8>) -> (r: String)
    requires
        bytes@.len() <= usize::MAX / 2,
    ensures
        r@ == base64_text(bytes@),
        is_base64(r@),
        base64_bytes(r@) == Some(bytes@),
{
    base64::Engine::encode(&base64::engine::general_purpose::STANDARD, bytes)
}

/// `Engine::decode` of base64 with `general_purpose::STANDARD`, by the name of its result.
#[verifier::external_body]
pub(crate) fn decode_base64(s: &str) -> (r: Option<Vec<u8>>)
    ensures
        match r {
            Some(v) => base64_bytes(s@) == Some(v@),
            None => base64_bytes(s@) is None,
        },
{
    base64::Engine::decode(&base64::engine::general_purpose::STANDARD, s).ok()
}

/// The control sequence that puts a text on the clipboard.
pub open spec fn clipboard_text(s: Seq<char>) -> Seq<char> {
    "\u{1b}]52;c;"@ + base64_text(vstd::utf8::encode_utf8(s)) + "\u{7}"@
}

/// What a terminal puts a text on the clipboard by: the control sequence OSC 52, with the
/// text's bytes in base64. There is none for a text that base64 has no room for.
pub fn clipboard_sequence(s: &str) -> (r: Option<String>)
    ensures
        r is Some <==> vstd::utf8::encode_utf8(s@).len() <= usize::MAX / 2,
        r matches Some(t) ==> t@ == "\u{1b}]52;c;"@ + base64_text(vstd::utf8::encode_utf8(s@))
            + "\u{7}"@,
        r matches Some(t) ==> t@ == clipboard_text(s@),
{
    let bytes = s.as_bytes_vec();
    if bytes.len() > usize::MAX / 2 {
        return None;
    }
    let encoded = encode_base64(&bytes);
    let mut out = text::joined("\u{1b}]52;c;", encoded.as_str());
    out.append("\u{7}");
    Some(out)
}

/// The bytes that form encoding leaves as they are.
pub open spec fn is_form_plain(b: u8) -> bool {
    ||| b == 0x2a
    ||| b == 0x2d
    ||| b == 0x2e
    ||| 0x30 <= b <= 0x39
    ||| 0x41 <= b <= 0x5a
    ||| b == 0x5f
    ||| 0x61 <= b <= 0x7a
}

/// A hexadecimal digit in upper case.
pub open spec fn upper_hex(d: u8) -> char {
    if d < 10 {
        (48 + d) as char
    } else {
        (55 + d) as char
    }
}

/// What form encoding makes of a byte: itself, `+` for a space, or its number in
/// hexadecimal behind `%`.
pub open spec fn form_byte(b: u8) -> Seq<char> {
    if is_form_plain(b) {
        seq![b as char]
    } else if b == 0x20 {
        seq!['+']
    } else {
        seq!['%', upper_hex(b / 16), upper_hex(b % 16)]
    }
}

/// What form encoding makes of some bytes.
pub open spec fn form_text(bytes: Seq<u8>) -> Seq<char>
    decreases bytes.len(),
{
    if bytes.len() == 0 {
        Seq::empty()
    } else {
        form_byte(bytes[0]) + form_text(bytes.drop_first())
    }
}

/// `form_urlencoded::byte_serialize` of url on the bytes of a text, put together: each byte
/// as `form_byte` says.
#[verifier::external_body]
pub(crate) fn urlencoding(s: &str) -> (r: String)
    ensures
        r@ == form_text(vstd::utf8::encode_utf8(s@)),
{
    url::form_urlencoded::byte_serialize(s.as_bytes()).collect()
}

} // verus!
