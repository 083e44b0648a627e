//! 16-byte RTPS global identifiers: a 12-byte participant-unique prefix plus
//! a 4-byte entity id, with the well-known entity ids of the built-in
//! discovery endpoints.
//!
//! Bytes are packed big-endian into machine integers, so field-wise equality
//! and ordering coincide with the byte-wise ones the wire format prescribes.

use vstd::prelude::*;

verus! {

/// SPDP built-in participant writer, bytes `00.01.00.c2`.
pub const ENTITYID_SPDP_BUILTIN_PARTICIPANT_WRITER: u32 = 0x000100c2;

/// SPDP built-in participant reader, bytes `00.01.00.c7`.
pub const ENTITYID_SPDP_BUILTIN_PARTICIPANT_READER: u32 = 0x000100c7;

/// SEDP built-in topic writer, bytes `00.00.02.c2`.
pub const ENTITYID_SEDP_BUILTIN_TOPIC_WRITER: u32 = 0x000002c2;

/// SEDP built-in topic reader, bytes `00.00.02.c7`.
pub const ENTITYID_SEDP_BUILTIN_TOPIC_READER: u32 = 0x000002c7;

/// SEDP built-in publications writer, bytes `00.00.03.c2`.
pub const ENTITYID_SEDP_BUILTIN_PUBLICATIONS_WRITER: u32 = 0x000003c2;

/// SEDP built-in publications reader, bytes `00.00.03.c7`.
pub const ENTITYID_SEDP_BUILTIN_PUBLICATIONS_READER: u32 = 0x000003c7;

/// SEDP built-in subscriptions writer, bytes `00.00.04.c2`.
pub const ENTITYID_SEDP_BUILTIN_SUBSCRIPTIONS_WRITER: u32 = 0x000004c2;

/// SEDP built-in subscriptions reader, bytes `00.00.04.c7`.
pub const ENTITYID_SEDP_BUILTIN_SUBSCRIPTIONS_READER: u32 = 0x000004c7;

/// Peer-to-peer built-in participant message writer, bytes `00.02.00.c2`.
pub const ENTITYID_P2P_BUILTIN_PARTICIPANT_MESSAGE_WRITER: u32 = 0x000200c2;

/// Peer-to-peer built-in participant message reader, bytes `00.02.00.c7`.
pub const ENTITYID_P2P_BUILTIN_PARTICIPANT_MESSAGE_READER: u32 = 0x000200c7;

/// The participant itself, bytes `00.00.01.c1`.
pub const ENTITYID_PARTICIPANT: u32 = 0x000001c1;

/// The 12-byte participant-unique part of a GUID, as three big-endian
/// 4-byte groups.
#[derive(Clone, Copy, PartialEq, Eq, Structural, Debug, Hash)]
pub struct GuidPrefix {
    pub bytes_0_3: u32,
    pub bytes_4_7: u32,
    pub bytes_8_11: u32,
}

impl GuidPrefix {
    pub fn new(bytes_0_3: u32, bytes_4_7: u32, bytes_8_11: u32) -> (g: GuidPrefix)
        ensures
            g == (GuidPrefix { bytes_0_3, bytes_4_7, bytes_8_11 }),
    {
        GuidPrefix { bytes_0_3, bytes_4_7, bytes_8_11 }
    }

    /// The all-zero prefix of `GUID_UNKNOWN`.
    pub fn unknown() -> (g: GuidPrefix)
        ensures
            g == (GuidPrefix { bytes_0_3: 0u32, bytes_4_7: 0u32, bytes_8_11: 0u32 }),
    {
        GuidPrefix { bytes_0_3: 0, bytes_4_7: 0, bytes_8_11: 0 }
    }
}

/// The 4-byte endpoint-unique part of a GUID, packed big-endian: a 3-byte
/// entity key followed by the entity-kind byte.
#[derive(Clone, Copy, PartialEq, Eq, Structural, Debug, Hash)]
pub struct EntityId {
    pub value: u32,
}

/// Whether `e` is one of the five built-in reader entity ids that the
/// discovery loop itself owns (SPDP, the three SEDP readers, liveliness).
pub open spec fn spec_is_builtin_reader(e: EntityId) -> bool {
    ||| e.value == ENTITYID_SPDP_BUILTIN_PARTICIPANT_READER
    ||| e.value == ENTITYID_SEDP_BUILTIN_SUBSCRIPTIONS_READER
    ||| e.value == ENTITYID_SEDP_BUILTIN_PUBLICATIONS_READER
    ||| e.value == ENTITYID_SEDP_BUILTIN_TOPIC_READER
    ||| e.value == ENTITYID_P2P_BUILTIN_PARTICIPANT_MESSAGE_READER
}

/// Whether `e` is one of the five built-in writer entity ids.
pub open spec fn spec_is_builtin_writer(e: EntityId) -> bool {
    ||| e.value == ENTITYID_SPDP_BUILTIN_PARTICIPANT_WRITER
    ||| e.value == ENTITYID_SEDP_BUILTIN_SUBSCRIPTIONS_WRITER
    ||| e.value == ENTITYID_SEDP_BUILTIN_PUBLICATIONS_WRITER
    ||| e.value == ENTITYID_SEDP_BUILTIN_TOPIC_WRITER
    ||| e.value == ENTITYID_P2P_BUILTIN_PARTICIPANT_MESSAGE_WRITER
}

impl EntityId {
    pub fn new(value: u32) -> (e: EntityId)
        ensures
            e.value == value,
    {
        EntityId { value }
    }

    /// The all-zero entity id of `GUID_UNKNOWN`.
    pub fn unknown() -> (e: EntityId)
        ensures
            e.value == 0,
    {
        EntityId { value: 0 }
    }

    pub fn is_builtin_reader(&self) -> (r: bool)
        ensures
            r == spec_is_builtin_reader(*self),
    {
        self.value == ENTITYID_SPDP_BUILTIN_PARTICIPANT_READER
            || self.value == ENTITYID_SEDP_BUILTIN_SUBSCRIPTIONS_READER
            || self.value == ENTITYID_SEDP_BUILTIN_PUBLICATIONS_READER
            || self.value == ENTITYID_SEDP_BUILTIN_TOPIC_READER
            || self.value == ENTITYID_P2P_BUILTIN_PARTICIPANT_MESSAGE_READER
    }

    pub fn is_builtin_writer(&self) -> (r: bool)
        ensures
            r == spec_is_builtin_writer(*self),
    {
        self.value == ENTITYID_SPDP_BUILTIN_PARTICIPANT_WRITER
            || self.value == ENTITYID_SEDP_BUILTIN_SUBSCRIPTIONS_WRITER
            || self.value == ENTITYID_SEDP_BUILTIN_PUBLICATIONS_WRITER
            || self.value == ENTITYID_SEDP_BUILTIN_TOPIC_WRITER
            || self.value == ENTITYID_P2P_BUILTIN_PARTICIPANT_MESSAGE_WRITER
    }
}

/// A full 16-byte RTPS GUID. Equality is byte-wise, that is field-wise.
#[derive(Clone, Copy, PartialEq, Eq, Structural, Debug, Hash)]
pub struct GUID {
    pub prefix: GuidPrefix,
    pub entity_id: EntityId,
}

impl GUID {
    pub fn new(prefix: GuidPrefix, entity_id: EntityId) -> (g: GUID)
        ensures
            g == (GUID { prefix, entity_id }),
    {
        GUID { prefix, entity_id }
    }

    /// The all-zero GUID that stands for "no particular endpoint".
    pub fn guid_unknown() -> (g: GUID)
        ensures
            g.prefix == (GuidPrefix { bytes_0_3: 0u32, bytes_4_7: 0u32, bytes_8_11: 0u32 }),
            g.entity_id.value == 0,
    {
        GUID { prefix: GuidPrefix::unknown(), entity_id: EntityId::unknown() }
    }

    /// The same participant's GUID with another entity id.
    pub fn from_prefix(&self, entity_id: EntityId) -> (g: GUID)
        ensures
            g.prefix == self.prefix,
            g.entity_id == entity_id,
    {
        GUID { prefix: self.prefix, entity_id }
    }
}

} // verus!
