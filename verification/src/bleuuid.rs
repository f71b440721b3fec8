//! 128-bit identifiers of services, characteristics and descriptors, and their text.

use vstd::prelude::*;
use crate::error::BluetoothError;

verus! {

/// A universally unique identifier, held as its 128 bits with the first byte of the
/// text in the highest place.
#[derive(Copy, Clone, Debug, PartialEq, Eq, Structural, Hash, PartialOrd, Ord)]
pub struct Uuid {
    value: u128,
}

/// What `uuid::Uuid::parse_str` reads from `text`: the 128 bits of the identifier, or
/// `None` where it refuses the text.
pub uninterp spec fn uuid_parsed(text: Seq<char>) -> Option<u128>;

/// The lower-case hexadecimal digit of a value below 16.
pub open spec fn hex_digit(n: int) -> char {
    seq!['0', '1', '2', '3', '4', '5', '6', '7', '8', '9', 'a', 'b', 'c', 'd', 'e', 'f'][n]
}

/// The place, among the 32 hexadecimal digits, of the digit that stands at `i` in the
/// hyphenated text.
pub open spec fn digit_place(i: int) -> int {
    if i > 23 {
        i - 4
    } else if i > 18 {
        i - 3
    } else if i > 13 {
        i - 2
    } else if i > 8 {
        i - 1
    } else {
        i
    }
}

/// The `k`-th hexadecimal digit of `value`, counted from the highest.
pub open spec fn nibble(value: u128, k: int) -> int {
    (value as int / vstd::arithmetic::power::pow(16, (31 - k) as nat)) % 16
}

/// The hyphenated lower-case text of `value`: 32 hexadecimal digits in groups of 8, 4,
/// 4, 4 and 12.
pub open spec fn uuid_text(value: u128) -> Seq<char> {
    Seq::new(
        36,
        |i: int|
            if i == 8 || i == 13 || i == 18 || i == 23 {
                '-'
            } else {
                hex_digit(nibble(value, digit_place(i)))
            },
    )
}

/// Calls `uuid::Uuid::parse_str` and hands back the bits of what it read. The result
/// is a function of the text alone, which `uuid_parsed` names.
#[verifier::external_body]
fn parse_bits(text: &str) -> (bits: Result<u128, uuid::Error>)
    ensures
        uuid_parsed(text@) == match bits {
            Ok(value) => Some(value),
            Err(_) => None,
        },
{
    match uuid::Uuid::parse_str(text) {
        Ok(id) => Ok(id.as_u128()),
        Err(e) => Err(e),
    }
}

/// Formats the identifier with `value` as its bits through the `Display` impl of
/// `uuid::Uuid`, which writes the hyphenated lower-case form.
#[verifier::external_body]
fn format_bits(value: u128) -> (text: String)
    ensures
        text@ == uuid_text(value),
{
    uuid::Uuid::from_u128(value).to_string()
}

impl Uuid {
    /// The 128 bits of the identifier.
    pub closed spec fn bits(self) -> u128 {
        self.value
    }

    /// What parsing `text` gives: the identifier read, or `None` where the text is
    /// refused.
    pub open spec fn parsed(text: Seq<char>) -> Option<Uuid> {
        match uuid_parsed(text) {
            Some(value) => Some(Uuid::spec_from_u128(value)),
            None => None,
        }
    }

    /// The identifier with `value` as its bits.
    pub closed spec fn spec_from_u128(value: u128) -> Uuid {
        Uuid { value }
    }

    /// Two identifiers with the same bits are the same identifier.
    pub proof fn lemma_bits(self, other: Uuid)
        ensures
            self.bits() == other.bits() <==> self == other,
            Uuid::spec_from_u128(self.bits()) == self,
    {
    }

    /// Makes the identifier with `value` as its bits.
    #[verifier::when_used_as_spec(spec_from_u128)]
    pub fn from_u128(value: u128) -> (id: Uuid)
        ensures
            id == Uuid::spec_from_u128(value),
            id.bits() == value,
    {
        Uuid { value }
    }

    /// Returns the 128 bits of the identifier.
    pub fn as_u128(&self) -> (value: u128)
        ensures
            value == self.bits(),
    {
        self.value
    }

    /// Parses an identifier from its text.
    pub fn parse_str(text: &str) -> (id: Result<Uuid, BluetoothError>)
        ensures
            id is Ok <==> Uuid::parsed(text@) is Some,
            id matches Ok(u) ==> Uuid::parsed(text@) == Some(u),
            id matches Err(e) ==> e is UUIDParseError,
    {
        match parse_bits(text) {
            Ok(value) => Ok(Uuid { value }),
            Err(e) => Err(BluetoothError::UUIDParseError(e)),
        }
    }

    /// Returns the hyphenated lower-case text of the identifier.
    pub fn to_string(&self) -> (text: String)
        ensures
            text@ == uuid_text(self.bits()),
    {
        format_bits(self.value)
    }
}

} // verus!
