//! One unit of produced data in the sample cache: its kind, its producing
//! writer, its per-writer sequence number and its payload.

use vstd::prelude::*;
use crate::guid::GUID;

verus! {

/// Whether a topic's instances carry a key.
#[derive(Clone, Copy, PartialEq, Eq, Structural, Debug)]
pub enum TopicKind {
    NoKey,
    WithKey,
}

/// Life-cycle kind of a cache change.
#[derive(Clone, Copy, PartialEq, Eq, Structural, Debug)]
pub enum ChangeKind {
    Alive,
    NotAliveDisposed,
    NotAliveUnregistered,
}

/// Per-writer strictly increasing sample counter.
#[derive(Clone, Copy, PartialEq, Eq, Structural, Debug, Hash)]
pub struct SequenceNumber {
    pub value: i64,
}

impl SequenceNumber {
    pub fn new(value: i64) -> (s: SequenceNumber)
        ensures
            s.value == value,
    {
        SequenceNumber { value }
    }
}

/// A serialized payload: opaque bytes plus the representation identifier
/// that tags their encoding.
#[derive(Clone, Debug)]
pub struct DDSData {
    pub representation_identifier: u16,
    pub bytes: Vec<u8>,
}

/// Ghost image of a [`DDSData`].
pub struct DDSDataView {
    pub representation_identifier: u16,
    pub bytes: Seq<u8>,
}

impl View for DDSData {
    type V = DDSDataView;

    open spec fn view(&self) -> DDSDataView {
        DDSDataView {
            representation_identifier: self.representation_identifier,
            bytes: self.bytes@,
        }
    }
}

impl DDSData {
    pub fn new(representation_identifier: u16, bytes: Vec<u8>) -> (d: DDSData)
        ensures
            d.representation_identifier == representation_identifier,
            d.bytes == bytes,
    {
        DDSData { representation_identifier, bytes }
    }
}

/// What a change carries: full data for a write, the key alone for a
/// dispose or unregister of a keyed instance, or nothing.
#[derive(Clone, Debug)]
pub enum Payload {
    Data(DDSData),
    KeyOnly(DDSData),
    Empty,
}

/// A key-only payload makes sense only on a keyed topic.
pub open spec fn spec_payload_legal(kind: TopicKind, p: Payload) -> bool {
    kind is WithKey || !(p is KeyOnly)
}

/// One produced sample, or the record of an instance's disposal.
#[derive(Clone, Debug)]
pub struct CacheChange {
    pub kind: ChangeKind,
    pub writer_guid: GUID,
    pub sequence_number: SequenceNumber,
    pub payload: Payload,
}

impl CacheChange {
    pub fn new(
        kind: ChangeKind,
        writer_guid: GUID,
        sequence_number: SequenceNumber,
        payload: Payload,
    ) -> (c: CacheChange)
        ensures
            c == (CacheChange { kind, writer_guid, sequence_number, payload }),
    {
        CacheChange { kind, writer_guid, sequence_number, payload }
    }
}

} // verus!
