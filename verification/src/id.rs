//! CAN identifiers: standard (11-bit) and extended (29-bit), and their raw values.
use vstd::prelude::*;

verus! {

/// The largest standard (11-bit) identifier.
pub const MAX_STANDARD_ID: u32 = 0x7FF;

/// The largest extended (29-bit) identifier.
pub const MAX_EXTENDED_ID: u32 = 0x1FFF_FFFF;

/// A CAN identifier, standard or extended, by its raw value.
#[derive(Debug, Clone, Copy, PartialEq, Eq, Structural)]
pub enum CanId {
    /// A standard 11-bit identifier.
    Standard(u16),
    /// An extended 29-bit identifier.
    Extended(u32),
}

/// The raw value of an identifier fits its kind: 11 bits for a standard one, 29 for an
/// extended one.
pub open spec fn can_id_valid(id: CanId) -> bool {
    match id {
        CanId::Standard(raw) => raw <= MAX_STANDARD_ID,
        CanId::Extended(raw) => raw <= MAX_EXTENDED_ID,
    }
}

/// The raw value of an identifier, widened to 32 bits.
pub open spec fn raw_of(id: CanId) -> u32 {
    match id {
        CanId::Standard(raw) => raw as u32,
        CanId::Extended(raw) => raw,
    }
}

/// The identifier under which a frame with raw id `raw` goes on the wire: standard when the
/// value fits in 11 bits, extended otherwise.
pub open spec fn id_for_raw(raw: u32) -> CanId {
    if raw > MAX_STANDARD_ID {
        CanId::Extended(raw)
    } else {
        CanId::Standard(raw as u16)
    }
}

/// `embedded_can::StandardId::new` followed by `as_raw`: the value back when it fits in
/// 11 bits, `None` otherwise, as the crate documents.
#[verifier::external_body]
fn checked_standard_id(raw: u16) -> (r: Option<u16>)
    ensures
        r == (if raw <= 0x7FF { Some(raw) } else { None::<u16> }),
{
    match embedded_can::StandardId::new(raw) {
        Some(id) => Some(id.as_raw()),
        None => None,
    }
}

/// `embedded_can::ExtendedId::new` followed by `as_raw`: the value back when it fits in
/// 29 bits, `None` otherwise, as the crate documents.
#[verifier::external_body]
fn checked_extended_id(raw: u32) -> (r: Option<u32>)
    ensures
        r == (if raw <= 0x1FFF_FFFF { Some(raw) } else { None::<u32> }),
{
    match embedded_can::ExtendedId::new(raw) {
        Some(id) => Some(id.as_raw()),
        None => None,
    }
}

/// The identifier for a frame's raw id: standard when it fits in 11 bits, extended
/// otherwise. Raw ids above `0x1FFF_FFFF` fit neither kind and are not accepted.
pub fn can_id_of(raw: u32) -> (id: CanId)
    requires
        raw <= MAX_EXTENDED_ID,
    ensures
        id == id_for_raw(raw),
        can_id_valid(id),
{
    if raw > MAX_STANDARD_ID {
        let checked = checked_extended_id(raw);
        CanId::Extended(checked.unwrap())
    } else {
        let checked = checked_standard_id(raw as u16);
        CanId::Standard(checked.unwrap())
    }
}

/// The raw value of an identifier as a 32-bit number.
pub fn get_raw_id(id: &CanId) -> (raw: u32)
    ensures
        raw == raw_of(*id),
{
    match id {
        CanId::Standard(raw) => *raw as u32,
        CanId::Extended(raw) => *raw,
    }
}

/// Reading back the raw id of the identifier chosen for a raw id gives that raw id, and
/// the chosen identifier is standard exactly when the raw id fits in 11 bits.
pub proof fn lemma_raw_id_round_trip(raw: u32)
    requires
        raw <= MAX_EXTENDED_ID,
    ensures
        raw_of(id_for_raw(raw)) == raw,
        can_id_valid(id_for_raw(raw)),
        id_for_raw(raw) is Standard <==> raw <= MAX_STANDARD_ID,
{
}

/// A valid identifier is chosen again from its own raw value, except an extended
/// identifier whose value also fits in 11 bits, which comes back as a standard one.
pub proof fn lemma_id_round_trip(id: CanId)
    requires
        can_id_valid(id),
        !(id is Extended && raw_of(id) <= MAX_STANDARD_ID),
    ensures
        id_for_raw(raw_of(id)) == id,
{
}

} // verus!
