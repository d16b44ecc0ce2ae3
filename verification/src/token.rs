//! The cookie token: the opaque 128-bit bearer credential that names a
//! session, with its text form.

use vstd::prelude::*;
use vstd::arithmetic::power::pow;

verus! {

/// The value that `uuid::Uuid::parse_str` reads from a text, as a big-endian
/// 128-bit number; `None` where it rejects the text.
pub uninterp spec fn uuid_parse(text: Seq<char>) -> Option<u128>;

/// The bits that mark a token as random (version 4) in the RFC 4122 layout.
pub const LAYOUT_MASK: u128 = 0x0000_0000_0000_f000_c000_0000_0000_0000u128;

/// The value of the [`LAYOUT_MASK`] bits in every generated token.
pub const LAYOUT_BITS: u128 = 0x0000_0000_0000_4000_8000_0000_0000_0000u128;

/// The lower-case character of one hexadecimal digit.
pub open spec fn hex_char(d: nat) -> char {
    if d == 0 {
        '0'
    } else if d == 1 {
        '1'
    } else if d == 2 {
        '2'
    } else if d == 3 {
        '3'
    } else if d == 4 {
        '4'
    } else if d == 5 {
        '5'
    } else if d == 6 {
        '6'
    } else if d == 7 {
        '7'
    } else if d == 8 {
        '8'
    } else if d == 9 {
        '9'
    } else if d == 10 {
        'a'
    } else if d == 11 {
        'b'
    } else if d == 12 {
        'c'
    } else if d == 13 {
        'd'
    } else if d == 14 {
        'e'
    } else {
        'f'
    }
}

/// The simple text form of a token: its 32 hexadecimal digits, most
/// significant first, in lower case and without separators.
pub open spec fn simple_text(value: u128) -> Seq<char> {
    Seq::new(32, |i: int| hex_char(((value as nat) / (pow(16, (31 - i) as nat) as nat)) % 16))
}

/// Calls `uuid::Uuid::new_v4` and hands the result out as a number
/// (`as_u128`). The value is random; the contract states only the version
/// and variant bits that `new_v4` sets in every result.
#[verifier::external_body]
fn random_uuid() -> (value: u128)
    ensures
        value & LAYOUT_MASK == LAYOUT_BITS,
{
    uuid::Uuid::new_v4().as_u128()
}

/// Calls `uuid::Uuid::parse_str` and drops the detail of a rejection. The
/// contract names the value that it reads as [`uuid_parse`] of the text.
#[verifier::external_body]
fn parse_uuid(text: &str) -> (r: Option<u128>)
    ensures
        r == uuid_parse(text@),
{
    match uuid::Uuid::parse_str(text) {
        Ok(id) => Some(id.as_u128()),
        Err(_) => None,
    }
}

/// Calls `uuid::Uuid::to_simple` on the token and renders it. The contract
/// claims the 32 lower-case hexadecimal digits of the value, and that
/// `parse_str` reads the same value back from them.
#[verifier::external_body]
fn format_uuid(value: u128) -> (s: String)
    ensures
        s@ == simple_text(value),
        uuid_parse(s@) == Some(value),
{
    uuid::Uuid::from_u128(value).to_simple().to_string()
}

/// An opaque cookie token.
#[derive(Clone, Copy, Debug, PartialEq, Eq, Structural, Hash)]
pub struct CookieToken {
    pub value: u128,
}

impl CookieToken {
    /// The token that a cookie text stands for, if it is well formed.
    pub open spec fn parsed(text: Seq<char>) -> Option<CookieToken> {
        match uuid_parse(text) {
            Some(value) => Some(CookieToken { value }),
            None => None,
        }
    }

    /// The text under which the token travels in a cookie.
    pub open spec fn text(self) -> Seq<char> {
        simple_text(self.value)
    }

    /// Whether the token carries the layout bits of a generated token.
    pub open spec fn is_random_layout(self) -> bool {
        self.value & LAYOUT_MASK == LAYOUT_BITS
    }

    /// Draws a fresh random token.
    pub fn generate() -> (token: CookieToken)
        ensures
            token.is_random_layout(),
    {
        CookieToken { value: random_uuid() }
    }

    /// Reads a token from its text form; `None` where the text is not a
    /// well-formed token.
    pub fn parse_str(text: &str) -> (r: Option<CookieToken>)
        ensures
            r == Self::parsed(text@),
    {
        match parse_uuid(text) {
            Some(value) => Some(CookieToken { value }),
            None => None,
        }
    }

    /// Renders the token in its simple text form.
    pub fn to_simple(&self) -> (s: String)
        ensures
            s@ == self.text(),
            Self::parsed(s@) == Some(*self),
    {
        format_uuid(self.value)
    }
}

} // verus!
