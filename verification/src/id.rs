//! Identifiers of users, servers, channels and messages.

use crate::text;
use vstd::prelude::*;

verus! {

/// A 128-bit identifier.
#[derive(Debug, Clone, Copy, PartialEq, Eq, Hash, Structural)]
pub struct Uuid(pub u128);

/// The character of a hexadecimal digit, in lower case.
pub open spec fn hex_char(d: u128) -> char {
    if d < 10 {
        (48 + d) as char
    } else {
        (87 + d) as char
    }
}

/// The `k`th of the 32 hexadecimal digits of an identifier, the most significant first.
pub open spec fn hex_digit(id: u128, k: int) -> char {
    hex_char((id >> (4 * (31 - k)) as u128) & 0xf)
}

/// The 32 hexadecimal digits of an identifier.
pub open spec fn simple_text(id: u128) -> Seq<char> {
    Seq::new(32, |k: int| hex_digit(id, k))
}

/// The digits of an identifier, with hyphens behind the 8th, 12th, 16th and 20th.
pub open spec fn hyphenated_text(id: u128) -> Seq<char> {
    let hex = simple_text(id);
    hex.subrange(0, 8) + seq!['-'] + hex.subrange(8, 12) + seq!['-'] + hex.subrange(12, 16)
        + seq!['-'] + hex.subrange(16, 20) + seq!['-'] + hex.subrange(20, 32)
}

/// The identifier that uuid reads from a text.
pub uninterp spec fn parsed_uuid(s: Seq<char>) -> Option<u128>;

/// `Uuid::parse_str` of uuid, by the name of its result.
#[verifier::external_body]
fn parse_str(s: &str) -> (r: Option<u128>)
    ensures
        r == parsed_uuid(s@),
{
    uuid::Uuid::parse_str(s).ok().map(|u| u.as_u128())
}

/// The `Display` form of uuid's `Uuid`: lower case digits with hyphens, which
/// `Uuid::parse_str` reads back.
#[verifier::external_body]
fn hyphenated(id: u128) -> (r: String)
    ensures
        r@ == hyphenated_text(id),
        parsed_uuid(r@) == Some(id),
{
    uuid::Uuid::from_u128(id).to_string()
}

/// `Uuid::simple` of uuid: the digits alone, in lower case.
#[verifier::external_body]
fn simple(id: u128) -> (r: String)
    ensures
        r@ == simple_text(id),
{
    uuid::Uuid::from_u128(id).simple().to_string()
}

/// The version digit of an identifier says that it is a random one.
pub open spec fn is_random(id: u128) -> bool {
    (id >> 76u128) & 0xf == 4
}

/// `Uuid::new_v4` of uuid: a random identifier, of which only the version digit is known.
#[verifier::external_body]
fn random() -> (r: u128)
    ensures
        is_random(r),
{
    uuid::Uuid::new_v4().as_u128()
}

impl Uuid {
    /// The identifier without a set bit.
    pub fn nil() -> (r: Uuid)
        ensures
            r == Uuid(0),
    {
        Uuid(0)
    }

    /// A fresh random identifier.
    pub fn new_v4() -> (r: Uuid)
        ensures
            is_random(r.0),
    {
        Uuid(random())
    }

    /// The identifier that a text spells, if it spells one.
    pub fn parse(s: &str) -> (r: Option<Uuid>)
        ensures
            match parsed_uuid(s@) {
                Some(u) => r == Some(Uuid(u)),
                None => r is None,
            },
    {
        match parse_str(s) {
            Some(u) => Some(Uuid(u)),
            None => None,
        }
    }

    /// The identifier that a text spells, or the nil one.
    pub fn parse_or_nil(s: &str) -> (r: Uuid)
        ensures
            r == or_nil(parsed_uuid(s@)),
    {
        match Uuid::parse(s) {
            Some(u) => u,
            None => Uuid::nil(),
        }
    }

    /// The identifier in the form in which it is stored and sent. It reads back as itself.
    pub fn text(self) -> (r: String)
        ensures
            r@ == hyphenated_text(self.0),
            parsed_uuid(r@) == Some(self.0),
    {
        hyphenated(self.0)
    }
}

pub open spec fn or_nil(parsed: Option<u128>) -> Uuid {
    match parsed {
        Some(u) => Uuid(u),
        None => Uuid(0),
    }
}

/// The session token made of an identifier.
pub open spec fn token_of(id: u128) -> Seq<char> {
    "tm_"@ + simple_text(id)
}

pub fn token_text(id: Uuid) -> (r: String)
    ensures
        r@ == token_of(id.0),
{
    let digits = simple(id.0);
    text::joined("tm_", digits.as_str())
}

/// A fresh opaque session token.
pub fn new_token() -> (r: String)
    ensures
        exists|id: u128| r@ == #[trigger] token_of(id) && is_random(id),
{
    token_text(Uuid::new_v4())
}

/// Two tokens are the same only where they were made of the same identifier.
pub proof fn law_tokens_tell_identifiers_apart(a: u128, b: u128)
    requires
        token_of(a) == token_of(b),
    ensures
        a == b,
{
    reveal_strlit("tm_");
    assert forall|k: int| 0 <= k < 32 implies #[trigger] hex_digit(a, k) == hex_digit(b, k) by {
        assert(token_of(a)[k + 3] == simple_text(a)[k]);
        assert(token_of(b)[k + 3] == simple_text(b)[k]);
    }
    lemma_digits_fix_identifier(a, b);
}

proof fn lemma_hex_char_injective(x: u128, y: u128)
    requires
        x < 16,
        y < 16,
        hex_char(x) == hex_char(y),
    ensures
        x == y,
{
}

proof fn lemma_digits_fix_identifier(a: u128, b: u128)
    requires
        forall|k: int| 0 <= k < 32 ==> #[trigger] hex_digit(a, k) == hex_digit(b, k),
    ensures
        a == b,
{
    let d = |k: int| (a >> (4 * (31 - k)) as u128) & 0xf == (b >> (4 * (31 - k)) as u128) & 0xf;
    assert forall|k: int| 0 <= k < 32 implies #[trigger] d(k) by {
        let s = (4 * (31 - k)) as u128;
        assert(hex_digit(a, k) == hex_digit(b, k));
        assert((a >> s) & 0xf < 16) by (bit_vector);
        assert((b >> s) & 0xf < 16) by (bit_vector);
        lemma_hex_char_injective((a >> s) & 0xf, (b >> s) & 0xf);
    }
    assert(d(0) && d(1) && d(2) && d(3) && d(4) && d(5) && d(6) && d(7) && d(8) && d(9) && d(10)
        && d(11) && d(12) && d(13) && d(14) && d(15) && d(16) && d(17) && d(18) && d(19) && d(20)
        && d(21) && d(22) && d(23) && d(24) && d(25) && d(26) && d(27) && d(28) && d(29) && d(30)
        && d(31));
    assert(a == b) by (bit_vector)
        requires
            (a >> 124u128) & 0xf == (b >> 124u128) & 0xf,
            (a >> 120u128) & 0xf == (b >> 120u128) & 0xf,
            (a >> 116u128) & 0xf == (b >> 116u128) & 0xf,
            (a >> 112u128) & 0xf == (b >> 112u128) & 0xf,
            (a >> 108u128) & 0xf == (b >> 108u128) & 0xf,
            (a >> 104u128) & 0xf == (b >> 104u128) & 0xf,
            (a >> 100u128) & 0xf == (b >> 100u128) & 0xf,
            (a >> 96u128) & 0xf == (b >> 96u128) & 0xf,
            (a >> 92u128) & 0xf == (b >> 92u128) & 0xf,
            (a >> 88u128) & 0xf == (b >> 88u128) & 0xf,
            (a >> 84u128) & 0xf == (b >> 84u128) & 0xf,
            (a >> 80u128) & 0xf == (b >> 80u128) & 0xf,
            (a >> 76u128) & 0xf == (b >> 76u128) & 0xf,
            (a >> 72u128) & 0xf == (b >> 72u128) & 0xf,
            (a >> 68u128) & 0xf == (b >> 68u128) & 0xf,
            (a >> 64u128) & 0xf == (b >> 64u128) & 0xf,
            (a >> 60u128) & 0xf == (b >> 60u128) & 0xf,
            (a >> 56u128) & 0xf == (b >> 56u128) & 0xf,
            (a >> 52u128) & 0xf == (b >> 52u128) & 0xf,
            (a >> 48u128) & 0xf == (b >> 48u128) & 0xf,
            (a >> 44u128) & 0xf == (b >> 44u128) & 0xf,
            (a >> 40u128) & 0xf == (b >> 40u128) & 0xf,
            (a >> 36u128) & 0xf == (b >> 36u128) & 0xf,
            (a >> 32u128) & 0xf == (b >> 32u128) & 0xf,
            (a >> 28u128) & 0xf == (b >> 28u128) & 0xf,
            (a >> 24u128) & 0xf == (b >> 24u128) & 0xf,
            (a >> 20u128) & 0xf == (b >> 20u128) & 0xf,
            (a >> 16u128) & 0xf == (b >> 16u128) & 0xf,
            (a >> 12u128) & 0xf == (b >> 12u128) & 0xf,
            (a >> 8u128) & 0xf == (b >> 8u128) & 0xf,
            (a >> 4u128) & 0xf == (b >> 4u128) & 0xf,
            (a >> 0u128) & 0xf == (b >> 0u128) & 0xf,
    ;
}

/// What is read from a text is the identifier that it spells, and the one without a set bit
/// where it spells none.
pub proof fn law_unreadable_identifiers_are_nil(u: u128)
    ensures
        or_nil(Some(u)) == Uuid(u),
        or_nil(None) == Uuid(0),
{
}

} // verus!
