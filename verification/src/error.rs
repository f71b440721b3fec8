//! The failures that decoding and lookups report.

use vstd::prelude::*;
use crate::bleuuid::Uuid;

verus! {

/// The failure that the parser of the `uuid` crate reports; nothing is known of what
/// it holds.
#[verifier::external_type_specification]
#[verifier::external_body]
pub struct ExUuidError(uuid::Error);

/// An error carrying out a Bluetooth operation.
#[derive(Debug, PartialEq, Eq)]
pub enum BluetoothError {
    /// No Bluetooth adapters were found on the system.
    NoBluetoothAdapters,
    /// No service or characteristic was found for some UUID.
    UUIDNotFound { uuid: Uuid },
    /// Error parsing a UUID from a string.
    UUIDParseError(uuid::Error),
    /// Error parsing a characteristic flag from a string.
    FlagParseError(String),
    /// A required property of some device or other object was not found.
    RequiredPropertyMissing(String),
}

} // verus!
