//! Identifiers shared across the library.

use vstd::prelude::*;
use vstd::arithmetic::power::pow;

verus! {

/// Identifier of a conversation thread: the 128 bits of its UUID.
#[derive(Clone, Copy, Debug, PartialEq, Eq, Hash, Structural)]
pub struct ThreadId {
    pub value: u128,
}

impl ThreadId {
    /// The thread id whose UUID has these 128 bits.
    pub fn from_u128(value: u128) -> (t: ThreadId)
        ensures
            t.value == value,
    {
        ThreadId { value }
    }

    /// The 128 bits of the UUID.
    pub fn as_u128(&self) -> (v: u128)
        ensures
            v == self.value,
    {
        self.value
    }

    /// Reads a thread id from its UUID text; `None` when the text is not a UUID.
    pub fn from_string(text: &str) -> (r: Option<ThreadId>)
        ensures
            match parsed_uuid(text@) {
                Some(v) => r == Some(ThreadId { value: v }),
                None => r is None,
            },
    {
        match parse_uuid(text) {
            Some(v) => Some(ThreadId { value: v }),
            None => None,
        }
    }

    /// The thread id's UUID text.
    pub fn to_text(&self) -> (r: String)
        ensures
            r@ == uuid_text(self.value),
    {
        format_uuid(self.value)
    }
}

/// The 128 bits of the UUID that `uuid::Uuid::parse_str` reads from a text,
/// or nothing when it refuses the text.
pub uninterp spec fn parsed_uuid(text: Seq<char>) -> Option<u128>;

/// The lower-case hexadecimal digit of a value below 16.
pub open spec fn hex_digit(d: int) -> char {
    if d < 10 {
        (48 + d) as char
    } else {
        (87 + d) as char
    }
}

/// The `k`-th hexadecimal digit of a 128-bit value, counted from the most
/// significant one.
pub open spec fn uuid_nibble(value: u128, k: int) -> int {
    (value as int / pow(16, (31 - k) as nat)) % 16
}

/// The hexadecimal digits `from..to` of a 128-bit value.
pub open spec fn hex_run(value: u128, from: int, to: int) -> Seq<char> {
    Seq::new((to - from) as nat, |i: int| hex_digit(uuid_nibble(value, from + i)))
}

/// The text of a UUID as `uuid::Uuid` displays it: its 128 bits, most
/// significant first, as 32 lower-case hexadecimal digits in groups of
/// 8, 4, 4, 4 and 12 joined by hyphens.
pub open spec fn uuid_text(value: u128) -> Seq<char> {
    hex_run(value, 0, 8) + "-"@ + hex_run(value, 8, 12) + "-"@ + hex_run(value, 12, 16) + "-"@
        + hex_run(value, 16, 20) + "-"@ + hex_run(value, 20, 32)
}

/// Whether a 128-bit value is a random (version 4) UUID: version bits
/// `0100` and variant bits `10`.
pub open spec fn is_random_uuid(value: u128) -> bool {
    value & 0x0000_0000_0000_F000_C000_0000_0000_0000u128 == 0x0000_0000_0000_4000_8000_0000_0000_0000u128
}

/// Parses a UUID with `uuid::Uuid::parse_str`; the result is named by `parsed_uuid`.
#[verifier::external_body]
fn parse_uuid(text: &str) -> (r: Option<u128>)
    ensures
        r == parsed_uuid(text@),
{
    match uuid::Uuid::parse_str(text) {
        Ok(u) => Some(u.as_u128()),
        Err(_) => None,
    }
}

/// Formats a UUID with `uuid::Uuid`'s `Display`; the result is named by `uuid_text`.
#[verifier::external_body]
pub(crate) fn format_uuid(value: u128) -> (r: String)
    ensures
        r@ == uuid_text(value),
{
    uuid::Uuid::from_u128(value).to_string()
}

/// A fresh random UUID from `uuid::Uuid::new_v4`, which masks random bits
/// and sets the version (4) and variant (`10`) bits; nothing else is known
/// of its bits.
#[verifier::external_body]
pub(crate) fn random_uuid() -> (v: u128)
    ensures
        is_random_uuid(v),
{
    uuid::Uuid::new_v4().as_u128()
}

} // verus!
