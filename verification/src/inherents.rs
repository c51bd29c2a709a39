//! The inherent data of a block: how the slot number gets in, and how it is read.

use vstd::prelude::*;
use sp_inherents::InherentData;
use sp_timestamp::TimestampInherentData;

use crate::bytes::{le_bytes, le_value};
use crate::codec::{decode_string, decoded_string};

verus! {

/// Tells the inherent data of one module from that of another.
pub type InherentIdentifier = [u8; 8];

/// The BABE inherent identifier, the letters `babeslot`.
pub const INHERENT_IDENTIFIER: InherentIdentifier = [
    0x62,
    0x61,
    0x62,
    0x65,
    0x73,
    0x6c,
    0x6f,
    0x74,
];

/// The timestamp inherent identifier, the letters `timstap0`.
pub const TIMESTAMP_IDENTIFIER: InherentIdentifier = [
    0x74,
    0x69,
    0x6d,
    0x73,
    0x74,
    0x61,
    0x70,
    0x30,
];

/// The type of the BABE inherent.
pub type InherentType = u64;

/// Inherent data of a block, as `sp-inherents` keeps it.
#[verifier::external_type_specification]
#[verifier::external_body]
pub struct ExInherentData(sp_inherents::InherentData);

/// The encoded inherents that `data` holds, by identifier.
pub uninterp spec fn inherent_entries(data: InherentData) -> Map<Seq<u8>, Seq<u8>>;

/// What an attempt to read a number from inherent data comes upon.
pub enum Stored {
    /// No data under the identifier.
    Missing,
    /// Data that is too short to be a number.
    Unreadable,
    /// A number.
    Value(u64),
}

/// The number that is stored under `identifier`: the first eight bytes there, in
/// little-endian order.
pub open spec fn stored_number(entries: Map<Seq<u8>, Seq<u8>>, identifier: Seq<u8>) -> Stored {
    if !entries.contains_key(identifier) {
        Stored::Missing
    } else if entries[identifier].len() < 8 {
        Stored::Unreadable
    } else {
        Stored::Value(le_value(entries[identifier].subrange(0, 8)) as u64)
    }
}

/// What is said of inherent data that cannot be decoded.
pub open spec fn undecodable_text() -> Seq<char> {
    "Could not decode requested inherent type!"@
}

/// What is said where an identifier is taken.
pub open spec fn taken_text() -> Seq<char> {
    "Inherent with same identifier already exists!"@
}

/// What is said where there is no timestamp.
pub open spec fn no_timestamp_text() -> Seq<char> {
    "Timestamp inherent data not found"@
}

/// Reads the number under `identifier`.
///
/// Calls `InherentData::get_data` of `sp-inherents`, which looks the identifier up and decodes
/// what it finds: `Ok(None)` where there is nothing, an error with `undecodable_text` where it
/// cannot be decoded. A `u64` decodes from the first eight bytes in little-endian order.
#[verifier::external_body]
fn get_data(data: &InherentData, identifier: &InherentIdentifier) -> (r: Result<
    Option<u64>,
    String,
>)
    ensures
        match stored_number(inherent_entries(*data), identifier@) {
            Stored::Missing => r matches Ok(None),
            Stored::Unreadable => r matches Err(text) && text@ == undecodable_text(),
            Stored::Value(v) => r matches Ok(Some(n)) && n == v,
        },
{
    data.get_data(identifier).map_err(|error| error.into_string())
}

/// Stores a number under `identifier`, where nothing is stored yet.
///
/// Calls `InherentData::put_data` of `sp-inherents`, which encodes the number and inserts it,
/// or returns an error with `taken_text` and changes nothing where the identifier is taken.
#[verifier::external_body]
fn put_data(data: &mut InherentData, identifier: InherentIdentifier, value: u64) -> (r: Result<
    (),
    String,
>)
    ensures
        r is Ok <==> !inherent_entries(*old(data)).contains_key(identifier@),
        r matches Err(text) ==> text@ == taken_text(),
        inherent_entries(*final(data)) == (if r is Ok {
            inherent_entries(*old(data)).insert(identifier@, le_bytes(value as nat, 8))
        } else {
            inherent_entries(*old(data))
        }),
{
    data.put_data(identifier, &value).map_err(|error| error.into_string())
}

/// Stores a number under `identifier`, whatever is stored there.
///
/// Calls `InherentData::replace_data` of `sp-inherents`, which encodes the number and inserts
/// it.
#[verifier::external_body]
fn replace_data(data: &mut InherentData, identifier: InherentIdentifier, value: u64)
    ensures
        inherent_entries(*final(data)) == inherent_entries(*old(data)).insert(
            identifier@,
            le_bytes(value as nat, 8),
        ),
{
    data.replace_data(identifier, &value)
}

/// Reads the timestamp of the block.
///
/// Calls `timestamp_inherent_data` of `sp-timestamp`, which reads the number under the
/// timestamp identifier, and returns an error with `no_timestamp_text` where it is missing and
/// one with `undecodable_text` where it cannot be decoded.
#[verifier::external_body]
fn timestamp_inherent_data(data: &InherentData) -> (r: Result<u64, String>)
    ensures
        match stored_number(inherent_entries(*data), TIMESTAMP_IDENTIFIER@) {
            Stored::Missing => r matches Err(text) && text@ == no_timestamp_text(),
            Stored::Unreadable => r matches Err(text) && text@ == undecodable_text(),
            Stored::Value(v) => r matches Ok(n) && n == v,
        },
{
    data.timestamp_inherent_data().map_err(|error| error.into_string())
}

/// Why inherent data was not provided, read or accepted.
#[derive(Debug, PartialEq, Eq)]
pub enum InherentError {
    /// The block carries no BABE inherent.
    NotFound,
    /// The slot of the timestamp is not the slot of the BABE inherent.
    SlotMismatch,
    /// The BABE inherent cannot be decoded. Holds what was said of it.
    Unreadable(String),
    /// There is no timestamp that can be read. Holds what was said of it.
    NoTimestamp(String),
    /// A BABE inherent has been provided already. Holds what was said of it.
    AlreadyProvided(String),
}

impl InherentError {
    /// What the error says.
    pub fn message(self) -> (r: String)
        ensures
            r@ == match self {
                InherentError::NotFound => "BABE inherent data not found"@,
                InherentError::SlotMismatch => "timestamp set in block doesn't match slot in seal"@,
                InherentError::Unreadable(text) => text@,
                InherentError::NoTimestamp(text) => text@,
                InherentError::AlreadyProvided(text) => text@,
            },
    {
        match self {
            InherentError::NotFound => "BABE inherent data not found".to_string(),
            InherentError::SlotMismatch =>
                "timestamp set in block doesn't match slot in seal".to_string(),
            InherentError::Unreadable(text) => text,
            InherentError::NoTimestamp(text) => text,
            InherentError::AlreadyProvided(text) => text,
        }
    }
}

/// Auxiliary trait to extract BABE inherent data.
pub trait BabeInherentData {
    /// The encoded inherents, by identifier.
    spec fn entries(&self) -> Map<Seq<u8>, Seq<u8>>;

    /// Get BABE inherent data.
    fn babe_inherent_data(&self) -> (r: Result<InherentType, InherentError>)
        ensures
            match stored_number(self.entries(), INHERENT_IDENTIFIER@) {
                Stored::Missing => r matches Err(InherentError::NotFound),
                Stored::Unreadable => r matches Err(InherentError::Unreadable(text)) && text@
                    == undecodable_text(),
                Stored::Value(v) => r matches Ok(slot) && slot == v,
            },
    ;

    /// Replace BABE inherent data.
    fn babe_replace_inherent_data(&mut self, new: InherentType)
        ensures
            final(self).entries() == old(self).entries().insert(
                INHERENT_IDENTIFIER@,
                le_bytes(new as nat, 8),
            ),
    ;
}

impl BabeInherentData for InherentData {
    open spec fn entries(&self) -> Map<Seq<u8>, Seq<u8>> {
        inherent_entries(*self)
    }

    fn babe_inherent_data(&self) -> (r: Result<InherentType, InherentError>) {
        match get_data(self, &INHERENT_IDENTIFIER) {
            Ok(Some(slot)) => Ok(slot),
            Ok(None) => Err(InherentError::NotFound),
            Err(error) => Err(InherentError::Unreadable(error)),
        }
    }

    fn babe_replace_inherent_data(&mut self, new: InherentType) {
        replace_data(self, INHERENT_IDENTIFIER, new);
    }
}

/// Provides the slot number inherent data for BABE.
#[derive(Debug, PartialEq, Eq)]
pub struct InherentDataProvider {
    /// How long a slot takes, in milliseconds.
    pub slot_duration: u64,
}

impl InherentDataProvider {
    /// Constructs `Self`.
    pub fn new(slot_duration: u64) -> (r: Self)
        ensures
            r.slot_duration == slot_duration,
    {
        InherentDataProvider { slot_duration }
    }

    /// Whether the timestamp provider is to be registered along with this one, which requires
    /// it: `registered` says whether it has been already.
    pub fn on_register(&self, registered: bool) -> (r: bool)
        ensures
            r == !registered,
    {
        !registered
    }

    /// The identifier of the inherent that is provided.
    pub fn inherent_identifier(&self) -> (r: InherentIdentifier)
        ensures
            r@ == INHERENT_IDENTIFIER@,
    {
        INHERENT_IDENTIFIER
    }

    /// Provides the number of the slot that the timestamp of the block lies in.
    pub fn provide_inherent_data(&self, inherent_data: &mut InherentData) -> (r: Result<
        (),
        InherentError,
    >)
        requires
            stored_number(inherent_entries(*old(inherent_data)), TIMESTAMP_IDENTIFIER@) is Value
                ==> self.slot_duration > 0,
        ensures
            match stored_number(inherent_entries(*old(inherent_data)), TIMESTAMP_IDENTIFIER@) {
                Stored::Value(timestamp) => if inherent_entries(*old(inherent_data)).contains_key(
                    INHERENT_IDENTIFIER@,
                ) {
                    r matches Err(InherentError::AlreadyProvided(text)) && text@ == taken_text()
                } else {
                    &&& r is Ok
                    &&& inherent_entries(*final(inherent_data)) == inherent_entries(
                        *old(inherent_data),
                    ).insert(
                        INHERENT_IDENTIFIER@,
                        le_bytes((timestamp / self.slot_duration) as nat, 8),
                    )
                },
                Stored::Missing => r matches Err(InherentError::NoTimestamp(text)) && text@
                    == no_timestamp_text(),
                Stored::Unreadable => r matches Err(InherentError::NoTimestamp(text)) && text@
                    == undecodable_text(),
            },
            r is Err ==> inherent_entries(*final(inherent_data)) == inherent_entries(
                *old(inherent_data),
            ),
    {
        let timestamp = match timestamp_inherent_data(inherent_data) {
            Ok(timestamp) => timestamp,
            Err(error) => return Err(InherentError::NoTimestamp(error)),
        };
        let slot_number = timestamp / self.slot_duration;
        match put_data(inherent_data, INHERENT_IDENTIFIER, slot_number) {
            Ok(()) => Ok(()),
            Err(error) => Err(InherentError::AlreadyProvided(error)),
        }
    }

    /// What an encoded error says, if it can be decoded.
    pub fn error_to_string(&self, error: &[u8]) -> (r: Option<String>)
        ensures
            r is Some <==> decoded_string(error@) is Some,
            r matches Some(s) ==> decoded_string(error@) == Some(s@),
    {
        decode_string(error)
    }
}

} // verus!
