//! The authoritative in-memory registry of discovered participants, remote
//! endpoints, topics and liveliness leases, together with the local
//! endpoint tables that the discovery loop publishes from.

use vstd::prelude::*;
use crate::datasample::Keyed;
use crate::guid::{GuidPrefix, GUID};
use crate::qos::QosPolicies;
use crate::time::{Duration, Timestamp};

verus! {

/// A transport address: the RTPS locator kind, a 16-byte address packed
/// into two big-endian halves, and a port.
#[derive(Clone, Copy, PartialEq, Eq, Structural, Debug)]
pub struct Locator {
    pub kind: i32,
    pub address_hi: u64,
    pub address_lo: u64,
    pub port: u32,
}

/// Copies a vector of plain values element by element.
fn copy_vec<T: Copy>(v: &Vec<T>) -> (r: Vec<T>)
    ensures
        r@ == v@,
{
    let mut r: Vec<T> = Vec::new();
    let mut i: usize = 0;
    while i < v.len()
        invariant
            i <= v.len(),
            r@ == v@.subrange(0, i as int),
        decreases v.len() - i,
    {
        r.push(v[i]);
        proof {
            assert(v@.subrange(0, i + 1) =~= v@.subrange(0, i as int).push(v@[i as int]));
        }
        i = i + 1;
    }
    proof {
        assert(v@.subrange(0, v@.len() as int) =~= v@);
    }
    r
}

/// What a remote participant advertises over SPDP.
#[derive(Debug)]
pub struct SpdpDiscoveredParticipantData {
    pub participant_guid: GUID,
    pub protocol_version: u16,
    pub vendor_id: u16,
    pub metatraffic_unicast_locators: Vec<Locator>,
    pub metatraffic_multicast_locators: Vec<Locator>,
    pub lease_duration: Duration,
}

/// Ghost image of an SPDP participant record.
pub struct SpdpDiscoveredParticipantDataView {
    pub participant_guid: GUID,
    pub protocol_version: u16,
    pub vendor_id: u16,
    pub metatraffic_unicast_locators: Seq<Locator>,
    pub metatraffic_multicast_locators: Seq<Locator>,
    pub lease_duration: Duration,
}

impl View for SpdpDiscoveredParticipantData {
    type V = SpdpDiscoveredParticipantDataView;

    open spec fn view(&self) -> SpdpDiscoveredParticipantDataView {
        SpdpDiscoveredParticipantDataView {
            participant_guid: self.participant_guid,
            protocol_version: self.protocol_version,
            vendor_id: self.vendor_id,
            metatraffic_unicast_locators: self.metatraffic_unicast_locators@,
            metatraffic_multicast_locators: self.metatraffic_multicast_locators@,
            lease_duration: self.lease_duration,
        }
    }
}

impl Clone for SpdpDiscoveredParticipantData {
    fn clone(&self) -> (r: Self)
        ensures
            r@ == self@,
    {
        SpdpDiscoveredParticipantData {
            participant_guid: self.participant_guid,
            protocol_version: self.protocol_version,
            vendor_id: self.vendor_id,
            metatraffic_unicast_locators: copy_vec(&self.metatraffic_unicast_locators),
            metatraffic_multicast_locators: copy_vec(&self.metatraffic_multicast_locators),
            lease_duration: self.lease_duration,
        }
    }
}

impl Keyed for SpdpDiscoveredParticipantData {
    type K = GUID;

    open spec fn spec_key(&self) -> GUID {
        self.participant_guid
    }

    fn get_key(&self) -> GUID {
        self.participant_guid
    }
}

/// A discovered remote (or advertised local) reader endpoint.
#[derive(Debug)]
pub struct DiscoveredReaderData {
    pub reader_guid: GUID,
    pub topic_name: String,
    pub data_type_name: String,
    pub qos: QosPolicies,
    pub unicast_locators: Vec<Locator>,
    pub multicast_locators: Vec<Locator>,
}

/// Ghost image of a reader endpoint record.
pub struct DiscoveredReaderDataView {
    pub reader_guid: GUID,
    pub topic_name: Seq<char>,
    pub data_type_name: Seq<char>,
    pub qos: QosPolicies,
    pub unicast_locators: Seq<Locator>,
    pub multicast_locators: Seq<Locator>,
}

impl View for DiscoveredReaderData {
    type V = DiscoveredReaderDataView;

    open spec fn view(&self) -> DiscoveredReaderDataView {
        DiscoveredReaderDataView {
            reader_guid: self.reader_guid,
            topic_name: self.topic_name@,
            data_type_name: self.data_type_name@,
            qos: self.qos,
            unicast_locators: self.unicast_locators@,
            multicast_locators: self.multicast_locators@,
        }
    }
}

impl Clone for DiscoveredReaderData {
    fn clone(&self) -> (r: Self)
        ensures
            r@ == self@,
    {
        DiscoveredReaderData {
            reader_guid: self.reader_guid,
            topic_name: self.topic_name.clone(),
            data_type_name: self.data_type_name.clone(),
            qos: self.qos,
            unicast_locators: copy_vec(&self.unicast_locators),
            multicast_locators: copy_vec(&self.multicast_locators),
        }
    }
}

impl Keyed for DiscoveredReaderData {
    type K = GUID;

    open spec fn spec_key(&self) -> GUID {
        self.reader_guid
    }

    fn get_key(&self) -> GUID {
        self.reader_guid
    }
}

/// A discovered remote (or advertised local) writer endpoint.
#[derive(Debug)]
pub struct DiscoveredWriterData {
    pub writer_guid: GUID,
    pub topic_name: String,
    pub data_type_name: String,
    pub qos: QosPolicies,
    pub unicast_locators: Vec<Locator>,
    pub multicast_locators: Vec<Locator>,
}

/// Ghost image of a writer endpoint record.
pub struct DiscoveredWriterDataView {
    pub writer_guid: GUID,
    pub topic_name: Seq<char>,
    pub data_type_name: Seq<char>,
    pub qos: QosPolicies,
    pub unicast_locators: Seq<Locator>,
    pub multicast_locators: Seq<Locator>,
}

impl View for DiscoveredWriterData {
    type V = DiscoveredWriterDataView;

    open spec fn view(&self) -> DiscoveredWriterDataView {
        DiscoveredWriterDataView {
            writer_guid: self.writer_guid,
            topic_name: self.topic_name@,
            data_type_name: self.data_type_name@,
            qos: self.qos,
            unicast_locators: self.unicast_locators@,
            multicast_locators: self.multicast_locators@,
        }
    }
}

impl Clone for DiscoveredWriterData {
    fn clone(&self) -> (r: Self)
        ensures
            r@ == self@,
    {
        DiscoveredWriterData {
            writer_guid: self.writer_guid,
            topic_name: self.topic_name.clone(),
            data_type_name: self.data_type_name.clone(),
            qos: self.qos,
            unicast_locators: copy_vec(&self.unicast_locators),
            multicast_locators: copy_vec(&self.multicast_locators),
        }
    }
}

impl Keyed for DiscoveredWriterData {
    type K = GUID;

    open spec fn spec_key(&self) -> GUID {
        self.writer_guid
    }

    fn get_key(&self) -> GUID {
        self.writer_guid
    }
}

/// Built-in metadata of a discovered topic.
#[derive(Debug)]
pub struct DiscoveredTopicData {
    pub topic_name: String,
    pub data_type_name: String,
    pub qos: QosPolicies,
}

/// Ghost image of a topic record.
pub struct DiscoveredTopicDataView {
    pub topic_name: Seq<char>,
    pub data_type_name: Seq<char>,
    pub qos: QosPolicies,
}

impl View for DiscoveredTopicData {
    type V = DiscoveredTopicDataView;

    open spec fn view(&self) -> DiscoveredTopicDataView {
        DiscoveredTopicDataView {
            topic_name: self.topic_name@,
            data_type_name: self.data_type_name@,
            qos: self.qos,
        }
    }
}

impl Clone for DiscoveredTopicData {
    fn clone(&self) -> (r: Self)
        ensures
            r@ == self@,
    {
        DiscoveredTopicData {
            topic_name: self.topic_name.clone(),
            data_type_name: self.data_type_name.clone(),
            qos: self.qos,
        }
    }
}

/// Kind tag of a liveliness assertion message.
#[allow(non_camel_case_types)]
#[derive(Clone, Copy, PartialEq, Eq, Structural, Debug)]
pub enum ParticipantMessageDataKind {
    PARTICIPANT_MESSAGE_DATA_KIND_UNKNOWN,
    PARTICIPANT_MESSAGE_DATA_KIND_AUTOMATIC_LIVELINESS_UPDATE,
    PARTICIPANT_MESSAGE_DATA_KIND_MANUAL_LIVELINESS_UPDATE,
}

/// A liveliness assertion on the participant-message topic.
#[derive(Debug)]
pub struct ParticipantMessageData {
    pub guid: GuidPrefix,
    pub kind: ParticipantMessageDataKind,
    pub data: Vec<u8>,
}

impl Keyed for ParticipantMessageData {
    type K = GuidPrefix;

    open spec fn spec_key(&self) -> GuidPrefix {
        self.guid
    }

    fn get_key(&self) -> GuidPrefix {
        self.guid
    }
}

/// UDPv4 locator kind value from the RTPS tables.
pub const LOCATOR_KIND_UDPV4: i32 = 1;

/// The well-known SPDP multicast address `239.255.0.1`, packed big-endian.
pub const SPDP_MULTICAST_ADDRESS: u64 = 0xefff_0001;

/// A known remote participant: its advertised record and when it was last
/// heard from.
#[derive(Clone, Debug)]
pub struct ParticipantProxy {
    pub data: SpdpDiscoveredParticipantData,
    pub last_heard: Timestamp,
}

/// A participant has not outlived its lease at `now`.
pub open spec fn spec_participant_alive(p: ParticipantProxy, now: Timestamp) -> bool {
    now.ticks - p.last_heard.ticks <= p.data.lease_duration.ticks
}

/// Some participant with this prefix has outlived its lease at `now`.
pub open spec fn spec_expired_prefix(
    parts: Seq<ParticipantProxy>,
    prefix: GuidPrefix,
    now: Timestamp,
) -> bool {
    exists|i: int|
        0 <= i < parts.len() && parts[i].data.participant_guid.prefix == prefix
            && !spec_participant_alive(parts[i], now)
}

pub open spec fn spec_participants_unique(s: Seq<ParticipantProxy>) -> bool {
    forall|i: int, j: int|
        0 <= i < j < s.len() ==> s[i].data.participant_guid.prefix
            != s[j].data.participant_guid.prefix
}

pub open spec fn spec_has_participant(s: Seq<ParticipantProxy>, prefix: GuidPrefix) -> bool {
    exists|i: int| 0 <= i < s.len() && s[i].data.participant_guid.prefix == prefix
}

pub open spec fn spec_participant_index(s: Seq<ParticipantProxy>, prefix: GuidPrefix) -> int {
    choose|i: int| 0 <= i < s.len() && s[i].data.participant_guid.prefix == prefix
}

pub open spec fn spec_reader_guids_unique(s: Seq<DiscoveredReaderData>) -> bool {
    forall|i: int, j: int| 0 <= i < j < s.len() ==> s[i].reader_guid != s[j].reader_guid
}

pub open spec fn spec_has_reader(s: Seq<DiscoveredReaderData>, g: GUID) -> bool {
    exists|i: int| 0 <= i < s.len() && s[i].reader_guid == g
}

pub open spec fn spec_reader_index(s: Seq<DiscoveredReaderData>, g: GUID) -> int {
    choose|i: int| 0 <= i < s.len() && s[i].reader_guid == g
}

pub open spec fn spec_writer_guids_unique(s: Seq<DiscoveredWriterData>) -> bool {
    forall|i: int, j: int| 0 <= i < j < s.len() ==> s[i].writer_guid != s[j].writer_guid
}

pub open spec fn spec_has_writer(s: Seq<DiscoveredWriterData>, g: GUID) -> bool {
    exists|i: int| 0 <= i < s.len() && s[i].writer_guid == g
}

pub open spec fn spec_writer_index(s: Seq<DiscoveredWriterData>, g: GUID) -> int {
    choose|i: int| 0 <= i < s.len() && s[i].writer_guid == g
}

pub open spec fn spec_topic_names_unique(s: Seq<DiscoveredTopicData>) -> bool {
    forall|i: int, j: int| 0 <= i < j < s.len() ==> s[i].topic_name@ != s[j].topic_name@
}

pub open spec fn spec_has_topic_record(s: Seq<DiscoveredTopicData>, name: Seq<char>) -> bool {
    exists|i: int| 0 <= i < s.len() && s[i].topic_name@ == name
}

pub open spec fn spec_topic_record_index(s: Seq<DiscoveredTopicData>, name: Seq<char>) -> int {
    choose|i: int| 0 <= i < s.len() && s[i].topic_name@ == name
}

fn locators_equal(a: &Vec<Locator>, b: &Vec<Locator>) -> (r: bool)
    ensures
        r == (a@ == b@),
{
    if a.len() != b.len() {
        return false;
    }
    let mut i: usize = 0;
    while i < a.len()
        invariant
            i <= a.len(),
            a@.len() == b@.len(),
            forall|k: int| 0 <= k < i ==> a@[k] == b@[k],
        decreases a.len() - i,
    {
        if a[i] != b[i] {
            proof {
                assert(a@[i as int] != b@[i as int]);
            }
            return false;
        }
        i = i + 1;
    }
    proof {
        assert(a@ =~= b@);
    }
    true
}

/// Deep equality of two SPDP records.
pub fn spdp_data_equal(a: &SpdpDiscoveredParticipantData, b: &SpdpDiscoveredParticipantData) -> (r:
    bool)
    ensures
        r == (a@ == b@),
{
    let r = a.participant_guid == b.participant_guid && a.protocol_version == b.protocol_version
        && a.vendor_id == b.vendor_id && a.lease_duration == b.lease_duration && locators_equal(
        &a.metatraffic_unicast_locators,
        &b.metatraffic_unicast_locators,
    ) && locators_equal(&a.metatraffic_multicast_locators, &b.metatraffic_multicast_locators);
    r
}

/// Deep equality of two reader endpoint records.
pub fn reader_data_equal(a: &DiscoveredReaderData, b: &DiscoveredReaderData) -> (r: bool)
    ensures
        r == (a@ == b@),
{
    let r = a.reader_guid == b.reader_guid && a.topic_name == b.topic_name && a.data_type_name
        == b.data_type_name && a.qos == b.qos && locators_equal(
        &a.unicast_locators,
        &b.unicast_locators,
    ) && locators_equal(&a.multicast_locators, &b.multicast_locators);
    r
}

/// Deep equality of two writer endpoint records.
pub fn writer_data_equal(a: &DiscoveredWriterData, b: &DiscoveredWriterData) -> (r: bool)
    ensures
        r == (a@ == b@),
{
    let r = a.writer_guid == b.writer_guid && a.topic_name == b.topic_name && a.data_type_name
        == b.data_type_name && a.qos == b.qos && locators_equal(
        &a.unicast_locators,
        &b.unicast_locators,
    ) && locators_equal(&a.multicast_locators, &b.multicast_locators);
    r
}

/// Deep equality of two topic records.
pub fn topic_data_equal(a: &DiscoveredTopicData, b: &DiscoveredTopicData) -> (r: bool)
    ensures
        r == (a@ == b@),
{
    let r = a.topic_name == b.topic_name && a.data_type_name == b.data_type_name && a.qos == b.qos;
    r
}

/// With unique prefixes, a participant entry is the only one under its
/// prefix.
pub proof fn lemma_participant_index_unique(s: Seq<ParticipantProxy>, i: int)
    requires
        spec_participants_unique(s),
        0 <= i < s.len(),
    ensures
        forall|j: int|
            0 <= j < s.len() && s[j].data.participant_guid.prefix
                == s[i].data.participant_guid.prefix ==> j == i,
        spec_participant_index(s, s[i].data.participant_guid.prefix) == i,
{
    assert forall|j: int|
        0 <= j < s.len() && s[j].data.participant_guid.prefix
            == s[i].data.participant_guid.prefix implies j == i by {
        if j < i {
            assert(s[j].data.participant_guid.prefix != s[i].data.participant_guid.prefix);
        } else if j > i {
            assert(s[i].data.participant_guid.prefix != s[j].data.participant_guid.prefix);
        }
    }
    assert(spec_has_participant(s, s[i].data.participant_guid.prefix));
}

/// With unique GUIDs, a reader entry is the only one under its GUID.
pub proof fn lemma_reader_index_unique(s: Seq<DiscoveredReaderData>, i: int)
    requires
        spec_reader_guids_unique(s),
        0 <= i < s.len(),
    ensures
        forall|j: int| 0 <= j < s.len() && s[j].reader_guid == s[i].reader_guid ==> j == i,
        spec_reader_index(s, s[i].reader_guid) == i,
{
    assert forall|j: int|
        0 <= j < s.len() && s[j].reader_guid == s[i].reader_guid implies j == i by {
        if j < i {
            assert(s[j].reader_guid != s[i].reader_guid);
        } else if j > i {
            assert(s[i].reader_guid != s[j].reader_guid);
        }
    }
    assert(spec_has_reader(s, s[i].reader_guid));
}

/// With unique GUIDs, a writer entry is the only one under its GUID.
pub proof fn lemma_writer_index_unique(s: Seq<DiscoveredWriterData>, i: int)
    requires
        spec_writer_guids_unique(s),
        0 <= i < s.len(),
    ensures
        forall|j: int| 0 <= j < s.len() && s[j].writer_guid == s[i].writer_guid ==> j == i,
        spec_writer_index(s, s[i].writer_guid) == i,
{
    assert forall|j: int|
        0 <= j < s.len() && s[j].writer_guid == s[i].writer_guid implies j == i by {
        if j < i {
            assert(s[j].writer_guid != s[i].writer_guid);
        } else if j > i {
            assert(s[i].writer_guid != s[j].writer_guid);
        }
    }
    assert(spec_has_writer(s, s[i].writer_guid));
}

/// With unique names, a topic record is the only one under its name.
pub proof fn lemma_topic_record_index_unique(s: Seq<DiscoveredTopicData>, i: int)
    requires
        spec_topic_names_unique(s),
        0 <= i < s.len(),
    ensures
        forall|j: int| 0 <= j < s.len() && s[j].topic_name@ == s[i].topic_name@ ==> j == i,
        spec_topic_record_index(s, s[i].topic_name@) == i,
{
    assert forall|j: int|
        0 <= j < s.len() && s[j].topic_name@ == s[i].topic_name@ implies j == i by {
        if j < i {
            assert(s[j].topic_name@ != s[i].topic_name@);
        } else if j > i {
            assert(s[i].topic_name@ != s[j].topic_name@);
        }
    }
    assert(spec_has_topic_record(s, s[i].topic_name@));
}

fn find_participant(v: &Vec<ParticipantProxy>, prefix: &GuidPrefix) -> (r: Option<usize>)
    requires
        spec_participants_unique(v@),
    ensures
        match r {
            Some(i) => {
                &&& i < v@.len()
                &&& v@[i as int].data.participant_guid.prefix == *prefix
                &&& i == spec_participant_index(v@, *prefix)
            },
            None => !spec_has_participant(v@, *prefix),
        },
{
    let mut i: usize = 0;
    while i < v.len()
        invariant
            spec_participants_unique(v@),
            i <= v.len(),
            forall|k: int| 0 <= k < i ==> v@[k].data.participant_guid.prefix != *prefix,
        decreases v.len() - i,
    {
        let entry = vstd::slice::slice_index_get(v.as_slice(), i);
        if entry.data.participant_guid.prefix == *prefix {
            proof {
                lemma_participant_index_unique(v@, i as int);
            }
            return Some(i);
        }
        i = i + 1;
    }
    None
}

fn find_reader(v: &Vec<DiscoveredReaderData>, guid: &GUID) -> (r: Option<usize>)
    requires
        spec_reader_guids_unique(v@),
    ensures
        match r {
            Some(i) => {
                &&& i < v@.len()
                &&& v@[i as int].reader_guid == *guid
                &&& i == spec_reader_index(v@, *guid)
            },
            None => !spec_has_reader(v@, *guid),
        },
{
    let mut i: usize = 0;
    while i < v.len()
        invariant
            spec_reader_guids_unique(v@),
            i <= v.len(),
            forall|k: int| 0 <= k < i ==> v@[k].reader_guid != *guid,
        decreases v.len() - i,
    {
        let entry = vstd::slice::slice_index_get(v.as_slice(), i);
        if entry.reader_guid == *guid {
            proof {
                lemma_reader_index_unique(v@, i as int);
            }
            return Some(i);
        }
        i = i + 1;
    }
    None
}

fn find_writer(v: &Vec<DiscoveredWriterData>, guid: &GUID) -> (r: Option<usize>)
    requires
        spec_writer_guids_unique(v@),
    ensures
        match r {
            Some(i) => {
                &&& i < v@.len()
                &&& v@[i as int].writer_guid == *guid
                &&& i == spec_writer_index(v@, *guid)
            },
            None => !spec_has_writer(v@, *guid),
        },
{
    let mut i: usize = 0;
    while i < v.len()
        invariant
            spec_writer_guids_unique(v@),
            i <= v.len(),
            forall|k: int| 0 <= k < i ==> v@[k].writer_guid != *guid,
        decreases v.len() - i,
    {
        let entry = vstd::slice::slice_index_get(v.as_slice(), i);
        if entry.writer_guid == *guid {
            proof {
                lemma_writer_index_unique(v@, i as int);
            }
            return Some(i);
        }
        i = i + 1;
    }
    None
}

fn find_topic_record(v: &Vec<DiscoveredTopicData>, name: &String) -> (r: Option<usize>)
    requires
        spec_topic_names_unique(v@),
    ensures
        match r {
            Some(i) => {
                &&& i < v@.len()
                &&& v@[i as int].topic_name@ == name@
                &&& i == spec_topic_record_index(v@, name@)
            },
            None => !spec_has_topic_record(v@, name@),
        },
{
    let mut i: usize = 0;
    while i < v.len()
        invariant
            spec_topic_names_unique(v@),
            i <= v.len(),
            forall|k: int| 0 <= k < i ==> v@[k].topic_name@ != name@,
        decreases v.len() - i,
    {
        let entry = vstd::slice::slice_index_get(v.as_slice(), i);
        if entry.topic_name == *name {
            proof {
                lemma_topic_record_index_unique(v@, i as int);
            }
            return Some(i);
        }
        i = i + 1;
    }
    None
}

/// The discovery database: known remote participants and endpoints, the
/// local endpoint tables, topic records, the seeded SPDP reader locator
/// and the two publish-debounce flags.
#[derive(Debug)]
pub struct DiscoveryDB {
    pub participants: Vec<ParticipantProxy>,
    pub local_topic_readers: Vec<DiscoveredReaderData>,
    pub local_topic_writers: Vec<DiscoveredWriterData>,
    pub external_topic_readers: Vec<DiscoveredReaderData>,
    pub external_topic_writers: Vec<DiscoveredWriterData>,
    pub topics: Vec<DiscoveredTopicData>,
    pub participant_reader_locator: Option<Locator>,
    pub readers_updated: bool,
    pub writers_updated: bool,
}

impl DiscoveryDB {
    /// Every table is keyed: one entry per participant prefix, endpoint
    /// GUID or topic name.
    pub open spec fn wf(&self) -> bool {
        &&& spec_participants_unique(self.participants@)
        &&& spec_reader_guids_unique(self.local_topic_readers@)
        &&& spec_writer_guids_unique(self.local_topic_writers@)
        &&& spec_reader_guids_unique(self.external_topic_readers@)
        &&& spec_writer_guids_unique(self.external_topic_writers@)
        &&& spec_topic_names_unique(self.topics@)
    }

    pub fn new() -> (db: DiscoveryDB)
        ensures
            db.wf(),
            db.participants@.len() == 0,
            db.local_topic_readers@.len() == 0,
            db.local_topic_writers@.len() == 0,
            db.external_topic_readers@.len() == 0,
            db.external_topic_writers@.len() == 0,
            db.topics@.len() == 0,
            db.participant_reader_locator is None,
            !db.readers_updated,
            !db.writers_updated,
    {
        DiscoveryDB {
            participants: Vec::new(),
            local_topic_readers: Vec::new(),
            local_topic_writers: Vec::new(),
            external_topic_readers: Vec::new(),
            external_topic_writers: Vec::new(),
            topics: Vec::new(),
            participant_reader_locator: None,
            readers_updated: false,
            writers_updated: false,
        }
    }

    /// Seeds the SPDP reader proxy with the well-known multicast locator on
    /// the given port.
    pub fn initialize_participant_reader_proxy(&mut self, port: u32)
        ensures
            *final(self) == (DiscoveryDB {
                participant_reader_locator: Some(
                    Locator {
                        kind: LOCATOR_KIND_UDPV4,
                        address_hi: 0u64,
                        address_lo: SPDP_MULTICAST_ADDRESS,
                        port,
                    },
                ),
                ..*old(self)
            }),
    {
        self.participant_reader_locator = Some(
            Locator {
                kind: LOCATOR_KIND_UDPV4,
                address_hi: 0,
                address_lo: SPDP_MULTICAST_ADDRESS,
                port,
            },
        );
    }

    pub fn is_readers_updated(&self) -> (r: bool)
        ensures
            r == self.readers_updated,
    {
        self.readers_updated
    }

    pub fn readers_updated(&mut self, updated: bool)
        ensures
            *final(self) == (DiscoveryDB { readers_updated: updated, ..*old(self) }),
    {
        self.readers_updated = updated;
    }

    pub fn is_writers_updated(&self) -> (r: bool)
        ensures
            r == self.writers_updated,
    {
        self.writers_updated
    }

    pub fn writers_updated(&mut self, updated: bool)
        ensures
            *final(self) == (DiscoveryDB { writers_updated: updated, ..*old(self) }),
    {
        self.writers_updated = updated;
    }

    pub fn get_all_local_topic_readers(&self) -> (r: &Vec<DiscoveredReaderData>)
        ensures
            r@ == self.local_topic_readers@,
    {
        &self.local_topic_readers
    }

    pub fn get_all_local_topic_writers(&self) -> (r: &Vec<DiscoveredWriterData>)
        ensures
            r@ == self.local_topic_writers@,
    {
        &self.local_topic_writers
    }

    pub fn get_all_topics(&self) -> (r: &Vec<DiscoveredTopicData>)
        ensures
            r@ == self.topics@,
    {
        &self.topics
    }

    /// Enters or refreshes a remote participant and stamps it heard-from
    /// at `now`. Returns whether anything other than the stamp changed.
    pub fn update_participant(&mut self, data: &SpdpDiscoveredParticipantData, now: Timestamp) -> (r:
        bool)
        requires
            old(self).wf(),
        ensures
            final(self).wf(),
            *final(self) == (DiscoveryDB {
                participants: final(self).participants,
                ..*old(self)
            }),
            spec_has_participant(final(self).participants@, data.participant_guid.prefix),
            ({
                let parts = old(self).participants@;
                let prefix = data.participant_guid.prefix;
                if spec_has_participant(parts, prefix) {
                    let i = spec_participant_index(parts, prefix);
                    &&& r == (parts[i].data@ != data@)
                    &&& final(self).participants@.len() == parts.len()
                    &&& forall|k: int|
                        0 <= k < parts.len() && k != i ==> final(self).participants@[k]
                            == parts[k]
                    &&& final(self).participants@[i].data@ == data@
                    &&& final(self).participants@[i].last_heard == now
                } else {
                    &&& r
                    &&& final(self).participants@.len() == parts.len() + 1
                    &&& forall|k: int|
                        0 <= k < parts.len() ==> final(self).participants@[k] == parts[k]
                    &&& final(self).participants@.last().data@ == data@
                    &&& final(self).participants@.last().last_heard == now
                }
            }),
    {
        let ghost pre = self.participants@;
        match find_participant(&self.participants, &data.participant_guid.prefix) {
            Some(i) => {
                let changed = !spdp_data_equal(&self.participants[i].data, data);
                let entry = ParticipantProxy { data: data.clone(), last_heard: now };
                let _ = self.participants.remove(i);
                self.participants.insert(i, entry);
                proof {
                    let post = self.participants@;
                    assert(post =~= pre.update(i as int, entry));
                    lemma_participant_index_unique(pre, i as int);
                    assert forall|a: int, b: int|
                        0 <= a < b < post.len() implies post[a].data.participant_guid.prefix
                        != post[b].data.participant_guid.prefix by {
                        if a != i && b != i {
                            assert(post[a] == pre[a]);
                            assert(post[b] == pre[b]);
                        }
                    }
                    assert(entry.data@ == data@);
                    assert(post[i as int] == entry);
                    assert(post[i as int].data.participant_guid.prefix
                        == data.participant_guid.prefix);
                    assert(spec_has_participant(post, data.participant_guid.prefix));
                }
                changed
            },
            None => {
                let entry = ParticipantProxy { data: data.clone(), last_heard: now };
                self.participants.push(entry);
                proof {
                    let post = self.participants@;
                    assert forall|a: int, b: int|
                        0 <= a < b < post.len() implies post[a].data.participant_guid.prefix
                        != post[b].data.participant_guid.prefix by {
                        if b == pre.len() {
                            assert(post[a] == pre[a]);
                            if post[a].data.participant_guid.prefix
                                == data.participant_guid.prefix {
                                assert(spec_has_participant(pre, data.participant_guid.prefix));
                            }
                        }
                    }
                    assert(post[pre.len() as int].data.participant_guid.prefix
                        == data.participant_guid.prefix);
                    assert(spec_has_participant(post, data.participant_guid.prefix));
                }
                true
            },
        }
    }

    /// Enters or refreshes a remote reader endpoint. Returns whether the
    /// record is new or its content changed.
    pub fn update_subscription(&mut self, data: &DiscoveredReaderData) -> (r: bool)
        requires
            old(self).wf(),
        ensures
            final(self).wf(),
            *final(self) == (DiscoveryDB {
                external_topic_readers: final(self).external_topic_readers,
                ..*old(self)
            }),
            spec_has_reader(final(self).external_topic_readers@, data.reader_guid),
            // Feeding a reader record through the subscription path
            // reproduces it: the record now held under its GUID is
            // view-equal to the one handed in.
            final(self).external_topic_readers@[spec_reader_index(
                final(self).external_topic_readers@,
                data.reader_guid,
            )]@ == data@,
            ({
                let readers = old(self).external_topic_readers@;
                if spec_has_reader(readers, data.reader_guid) {
                    let i = spec_reader_index(readers, data.reader_guid);
                    &&& r == (readers[i]@ != data@)
                    &&& final(self).external_topic_readers@.len() == readers.len()
                    &&& forall|k: int|
                        0 <= k < readers.len() && k != i ==> final(self).external_topic_readers@[k] == readers[k]
                    &&& final(self).external_topic_readers@[i]@ == data@
                } else {
                    &&& r
                    &&& final(self).external_topic_readers@.len() == readers.len() + 1
                    &&& forall|k: int|
                        0 <= k < readers.len() ==> final(self).external_topic_readers@[k]
                            == readers[k]
                    &&& final(self).external_topic_readers@.last()@ == data@
                }
            }),
    {
        let ghost pre = self.external_topic_readers@;
        match find_reader(&self.external_topic_readers, &data.reader_guid) {
            Some(i) => {
                let changed = !reader_data_equal(&self.external_topic_readers[i], data);
                let entry = data.clone();
                let _ = self.external_topic_readers.remove(i);
                self.external_topic_readers.insert(i, entry);
                proof {
                    let post = self.external_topic_readers@;
                    assert(post =~= pre.update(i as int, entry));
                    lemma_reader_index_unique(pre, i as int);
                    assert forall|a: int, b: int|
                        0 <= a < b < post.len() implies post[a].reader_guid
                        != post[b].reader_guid by {
                        if a != i && b != i {
                            assert(post[a] == pre[a]);
                            assert(post[b] == pre[b]);
                        }
                    }
                    assert(post[i as int].reader_guid == data.reader_guid);
                    assert(spec_has_reader(post, data.reader_guid));
                    lemma_reader_index_unique(post, i as int);
                }
                changed
            },
            None => {
                let entry = data.clone();
                self.external_topic_readers.push(entry);
                proof {
                    let post = self.external_topic_readers@;
                    assert forall|a: int, b: int|
                        0 <= a < b < post.len() implies post[a].reader_guid
                        != post[b].reader_guid by {
                        if b == pre.len() {
                            assert(post[a] == pre[a]);
                            if post[a].reader_guid == data.reader_guid {
                                assert(spec_has_reader(pre, data.reader_guid));
                            }
                        }
                    }
                    assert(post[pre.len() as int].reader_guid == data.reader_guid);
                    assert(spec_has_reader(post, data.reader_guid));
                    lemma_reader_index_unique(post, pre.len() as int);
                }
                true
            },
        }
    }

    /// Enters or refreshes a remote writer endpoint. Returns whether the
    /// record is new or its content changed.
    pub fn update_publication(&mut self, data: &DiscoveredWriterData) -> (r: bool)
        requires
            old(self).wf(),
        ensures
            final(self).wf(),
            *final(self) == (DiscoveryDB {
                external_topic_writers: final(self).external_topic_writers,
                ..*old(self)
            }),
            spec_has_writer(final(self).external_topic_writers@, data.writer_guid),
            ({
                let writers = old(self).external_topic_writers@;
                if spec_has_writer(writers, data.writer_guid) {
                    let i = spec_writer_index(writers, data.writer_guid);
                    &&& r == (writers[i]@ != data@)
                    &&& final(self).external_topic_writers@.len() == writers.len()
                    &&& forall|k: int|
                        0 <= k < writers.len() && k != i ==> final(self).external_topic_writers@[k] == writers[k]
                    &&& final(self).external_topic_writers@[i]@ == data@
                } else {
                    &&& r
                    &&& final(self).external_topic_writers@.len() == writers.len() + 1
                    &&& forall|k: int|
                        0 <= k < writers.len() ==> final(self).external_topic_writers@[k]
                            == writers[k]
                    &&& final(self).external_topic_writers@.last()@ == data@
                }
            }),
    {
        let ghost pre = self.external_topic_writers@;
        match find_writer(&self.external_topic_writers, &data.writer_guid) {
            Some(i) => {
                let changed = !writer_data_equal(&self.external_topic_writers[i], data);
                let entry = data.clone();
                let _ = self.external_topic_writers.remove(i);
                self.external_topic_writers.insert(i, entry);
                proof {
                    let post = self.external_topic_writers@;
                    assert(post =~= pre.update(i as int, entry));
                    lemma_writer_index_unique(pre, i as int);
                    assert forall|a: int, b: int|
                        0 <= a < b < post.len() implies post[a].writer_guid
                        != post[b].writer_guid by {
                        if a != i && b != i {
                            assert(post[a] == pre[a]);
                            assert(post[b] == pre[b]);
                        }
                    }
                    assert(post[i as int].writer_guid == data.writer_guid);
                    assert(spec_has_writer(post, data.writer_guid));
                }
                changed
            },
            None => {
                let entry = data.clone();
                self.external_topic_writers.push(entry);
                proof {
                    let post = self.external_topic_writers@;
                    assert forall|a: int, b: int|
                        0 <= a < b < post.len() implies post[a].writer_guid
                        != post[b].writer_guid by {
                        if b == pre.len() {
                            assert(post[a] == pre[a]);
                            if post[a].writer_guid == data.writer_guid {
                                assert(spec_has_writer(pre, data.writer_guid));
                            }
                        }
                    }
                    assert(post[pre.len() as int].writer_guid == data.writer_guid);
                    assert(spec_has_writer(post, data.writer_guid));
                }
                true
            },
        }
    }

    /// Enters or refreshes a topic record. Returns whether the record is
    /// new or its content changed.
    pub fn update_topic_data(&mut self, data: &DiscoveredTopicData) -> (r: bool)
        requires
            old(self).wf(),
        ensures
            final(self).wf(),
            *final(self) == (DiscoveryDB { topics: final(self).topics, ..*old(self) }),
            spec_has_topic_record(final(self).topics@, data.topic_name@),
            ({
                let topics = old(self).topics@;
                if spec_has_topic_record(topics, data.topic_name@) {
                    let i = spec_topic_record_index(topics, data.topic_name@);
                    &&& r == (topics[i]@ != data@)
                    &&& final(self).topics@.len() == topics.len()
                    &&& forall|k: int|
                        0 <= k < topics.len() && k != i ==> final(self).topics@[k] == topics[k]
                    &&& final(self).topics@[i]@ == data@
                } else {
                    &&& r
                    &&& final(self).topics@.len() == topics.len() + 1
                    &&& forall|k: int| 0 <= k < topics.len() ==> final(self).topics@[k] == topics[k]
                    &&& final(self).topics@.last()@ == data@
                }
            }),
    {
        let ghost pre = self.topics@;
        match find_topic_record(&self.topics, &data.topic_name) {
            Some(i) => {
                let changed = !topic_data_equal(&self.topics[i], data);
                let entry = data.clone();
                let _ = self.topics.remove(i);
                self.topics.insert(i, entry);
                proof {
                    let post = self.topics@;
                    assert(post =~= pre.update(i as int, entry));
                    lemma_topic_record_index_unique(pre, i as int);
                    assert forall|a: int, b: int|
                        0 <= a < b < post.len() implies post[a].topic_name@
                        != post[b].topic_name@ by {
                        if a != i && b != i {
                            assert(post[a] == pre[a]);
                            assert(post[b] == pre[b]);
                        }
                    }
                    assert(post[i as int].topic_name@ == data.topic_name@);
                    assert(spec_has_topic_record(post, data.topic_name@));
                }
                changed
            },
            None => {
                let entry = data.clone();
                self.topics.push(entry);
                proof {
                    let post = self.topics@;
                    assert forall|a: int, b: int|
                        0 <= a < b < post.len() implies post[a].topic_name@
                        != post[b].topic_name@ by {
                        if b == pre.len() {
                            assert(post[a] == pre[a]);
                            if post[a].topic_name@ == data.topic_name@ {
                                assert(spec_has_topic_record(pre, data.topic_name@));
                            }
                        }
                    }
                    assert(post[pre.len() as int].topic_name@ == data.topic_name@);
                    assert(spec_has_topic_record(post, data.topic_name@));
                }
                true
            },
        }
    }
}

/// Filtering one more element appends it exactly when it satisfies the
/// predicate.
pub proof fn lemma_filter_step<A>(s: Seq<A>, pred: spec_fn(A) -> bool, i: int)
    requires
        0 <= i < s.len(),
    ensures
        pred(s[i]) ==> s.subrange(0, i + 1).filter(pred) == s.subrange(0, i).filter(pred).push(
            s[i],
        ),
        !pred(s[i]) ==> s.subrange(0, i + 1).filter(pred) == s.subrange(0, i).filter(pred),
{
    reveal(Seq::filter);
    let t = s.subrange(0, i + 1);
    assert(t.drop_last() =~= s.subrange(0, i));
    assert(t.last() == s[i]);
}

/// Two predicates that agree on every element filter a sequence alike.
proof fn lemma_filter_congruence<A>(s: Seq<A>, p1: spec_fn(A) -> bool, p2: spec_fn(A) -> bool)
    requires
        forall|i: int| 0 <= i < s.len() ==> p1(#[trigger] s[i]) == p2(s[i]),
    ensures
        s.filter(p1) == s.filter(p2),
    decreases s.len(),
{
    reveal(Seq::filter);
    if s.len() != 0 {
        let t = s.drop_last();
        assert forall|i: int| 0 <= i < t.len() implies p1(#[trigger] t[i]) == p2(t[i]) by {
            assert(t[i] == s[i]);
        }
        lemma_filter_congruence(t, p1, p2);
        assert(s.last() == s[s.len() - 1]);
    }
}

proof fn lemma_remove_keeps_participants_unique(s: Seq<ParticipantProxy>, i: int)
    requires
        spec_participants_unique(s),
        0 <= i < s.len(),
    ensures
        spec_participants_unique(s.remove(i)),
{
    let t = s.remove(i);
    assert forall|a: int, b: int|
        0 <= a < b < t.len() implies t[a].data.participant_guid.prefix
        != t[b].data.participant_guid.prefix by {
        if a < i {
            assert(t[a] == s[a]);
        } else {
            assert(t[a] == s[a + 1]);
        }
        if b < i {
            assert(t[b] == s[b]);
        } else {
            assert(t[b] == s[b + 1]);
        }
    }
}

proof fn lemma_remove_keeps_readers_unique(s: Seq<DiscoveredReaderData>, i: int)
    requires
        spec_reader_guids_unique(s),
        0 <= i < s.len(),
    ensures
        spec_reader_guids_unique(s.remove(i)),
{
    let t = s.remove(i);
    assert forall|a: int, b: int|
        0 <= a < b < t.len() implies t[a].reader_guid != t[b].reader_guid by {
        if a < i {
            assert(t[a] == s[a]);
        } else {
            assert(t[a] == s[a + 1]);
        }
        if b < i {
            assert(t[b] == s[b]);
        } else {
            assert(t[b] == s[b + 1]);
        }
    }
}

proof fn lemma_remove_keeps_writers_unique(s: Seq<DiscoveredWriterData>, i: int)
    requires
        spec_writer_guids_unique(s),
        0 <= i < s.len(),
    ensures
        spec_writer_guids_unique(s.remove(i)),
{
    let t = s.remove(i);
    assert forall|a: int, b: int|
        0 <= a < b < t.len() implies t[a].writer_guid != t[b].writer_guid by {
        if a < i {
            assert(t[a] == s[a]);
        } else {
            assert(t[a] == s[a + 1]);
        }
        if b < i {
            assert(t[b] == s[b]);
        } else {
            assert(t[b] == s[b + 1]);
        }
    }
}

proof fn lemma_remove_keeps_topics_unique(s: Seq<DiscoveredTopicData>, i: int)
    requires
        spec_topic_names_unique(s),
        0 <= i < s.len(),
    ensures
        spec_topic_names_unique(s.remove(i)),
{
    let t = s.remove(i);
    assert forall|a: int, b: int|
        0 <= a < b < t.len() implies t[a].topic_name@ != t[b].topic_name@ by {
        if a < i {
            assert(t[a] == s[a]);
        } else {
            assert(t[a] == s[a + 1]);
        }
        if b < i {
            assert(t[b] == s[b]);
        } else {
            assert(t[b] == s[b + 1]);
        }
    }
}

/// Drops every participant that has outlived its lease at `now`.
fn retain_live_participants(v: &mut Vec<ParticipantProxy>, now: Timestamp)
    requires
        spec_participants_unique(old(v)@),
    ensures
        final(v)@ == old(v)@.filter(
            (|p: ParticipantProxy| spec_participant_alive(p, now)),
        ),
        spec_participants_unique(final(v)@),
{
    let ghost orig = v@;
    let ghost pred = (|p: ParticipantProxy| spec_participant_alive(p, now));
    let mut i: usize = 0;
    let ghost mut j: int = 0;
    proof {
        assert(orig.subrange(0, 0).filter(pred) =~= Seq::<ParticipantProxy>::empty());
        reveal(Seq::filter);
        assert(orig.subrange(0, 0).filter(pred).len() == 0);
        assert(v@ =~= orig.subrange(0, 0).filter(pred) + orig.subrange(0, orig.len() as int));
    }
    while i < v.len()
        invariant
            spec_participants_unique(v@),
            0 <= j <= orig.len(),
            i as int == orig.subrange(0, j).filter(pred).len(),
            i <= v.len(),
            v@ == orig.subrange(0, j).filter(pred) + orig.subrange(j, orig.len() as int),
            pred == (|p: ParticipantProxy| spec_participant_alive(p, now)),
        decreases v.len() - i,
    {
        let ghost pre_v = v@;
        proof {
            assert(v@[i as int] == orig.subrange(j, orig.len() as int)[i - j + j - i]);
            assert(v@[i as int] == orig[j]);
            lemma_filter_step(orig, pred, j);
        }
        let entry = vstd::slice::slice_index_get(v.as_slice(), i);
        let keep = if now.ticks >= entry.last_heard.ticks {
            now.ticks - entry.last_heard.ticks <= entry.data.lease_duration.ticks
        } else {
            true
        };
        proof {
            assert(keep == spec_participant_alive(orig[j], now));
        }
        if keep {
            i = i + 1;
            proof {
                j = j + 1;
                assert(v@ =~= orig.subrange(0, j).filter(pred) + orig.subrange(
                    j,
                    orig.len() as int,
                ));
            }
        } else {
            v.remove(i);
            proof {
                lemma_remove_keeps_participants_unique(pre_v, i as int);
                j = j + 1;
                assert(v@ =~= orig.subrange(0, j).filter(pred) + orig.subrange(
                    j,
                    orig.len() as int,
                ));
            }
        }
    }
    proof {
        assert(j == orig.len());
        assert(orig.subrange(0, orig.len() as int) =~= orig);
    }
}

fn contains_prefix(v: &Vec<GuidPrefix>, p: GuidPrefix) -> (r: bool)
    ensures
        r == v@.contains(p),
{
    let mut i: usize = 0;
    while i < v.len()
        invariant
            i <= v.len(),
            forall|k: int| 0 <= k < i ==> v@[k] != p,
        decreases v.len() - i,
    {
        if v[i] == p {
            proof {
                assert(v@[i as int] == p);
            }
            return true;
        }
        i = i + 1;
    }
    proof {
        assert forall|k: int| 0 <= k < v@.len() implies v@[k] != p by {}
    }
    false
}

/// The prefixes of every participant that has outlived its lease at `now`.
fn collect_expired_prefixes(v: &Vec<ParticipantProxy>, now: Timestamp) -> (r: Vec<GuidPrefix>)
    ensures
        forall|p: GuidPrefix| #[trigger] r@.contains(p) <==> spec_expired_prefix(v@, p, now),
{
    let mut r: Vec<GuidPrefix> = Vec::new();
    let mut i: usize = 0;
    while i < v.len()
        invariant
            i <= v.len(),
            forall|p: GuidPrefix| #[trigger]
                r@.contains(p) <==> exists|k: int|
                    0 <= k < i && v@[k].data.participant_guid.prefix == p
                        && !spec_participant_alive(v@[k], now),
        decreases v.len() - i,
    {
        let ghost pre = r@;
        let entry = vstd::slice::slice_index_get(v.as_slice(), i);
        let alive = if now.ticks >= entry.last_heard.ticks {
            now.ticks - entry.last_heard.ticks <= entry.data.lease_duration.ticks
        } else {
            true
        };
        if !alive {
            r.push(entry.data.participant_guid.prefix);
        }
        proof {
            let px = v@[i as int].data.participant_guid.prefix;
            assert(alive == spec_participant_alive(v@[i as int], now));
            assert forall|p: GuidPrefix| #[trigger] r@.contains(p) implies exists|k: int|
                0 <= k < i + 1 && v@[k].data.participant_guid.prefix == p
                    && !spec_participant_alive(v@[k], now) by {
                if !alive {
                    assert(r@ == pre.push(px));
                    let w = choose|w: int| 0 <= w < r@.len() && r@[w] == p;
                    if w < pre.len() {
                        assert(pre[w] == p);
                        assert(pre.contains(p));
                    } else {
                        assert(p == px);
                        assert(v@[i as int].data.participant_guid.prefix == p);
                    }
                } else {
                    assert(r@ == pre);
                }
            }
            assert forall|p: GuidPrefix|
                (exists|k: int|
                    0 <= k < i + 1 && v@[k].data.participant_guid.prefix == p
                        && !spec_participant_alive(v@[k], now)) implies #[trigger] r@.contains(
                p,
            ) by {
                let k = choose|k: int|
                    0 <= k < i + 1 && v@[k].data.participant_guid.prefix == p
                        && !spec_participant_alive(v@[k], now);
                if k < i {
                    assert(pre.contains(p));
                    if !alive {
                        let w = choose|w: int| 0 <= w < pre.len() && pre[w] == p;
                        assert(r@[w] == p);
                    }
                } else {
                    assert(!alive);
                    assert(r@[pre.len() as int] == p);
                }
            }
        }
        i = i + 1;
    }
    r
}

/// Drops every reader endpoint whose participant prefix is listed.
fn remove_readers_with_prefixes(v: &mut Vec<DiscoveredReaderData>, dropped: &Vec<GuidPrefix>)
    requires
        spec_reader_guids_unique(old(v)@),
    ensures
        final(v)@ == old(v)@.filter(
            (|d: DiscoveredReaderData| !dropped@.contains(d.reader_guid.prefix)),
        ),
        spec_reader_guids_unique(final(v)@),
{
    let ghost orig = v@;
    let ghost pred = (|d: DiscoveredReaderData| !dropped@.contains(d.reader_guid.prefix));
    let mut i: usize = 0;
    let ghost mut j: int = 0;
    proof {
        reveal(Seq::filter);
        assert(orig.subrange(0, 0).filter(pred).len() == 0);
        assert(v@ =~= orig.subrange(0, 0).filter(pred) + orig.subrange(0, orig.len() as int));
    }
    while i < v.len()
        invariant
            spec_reader_guids_unique(v@),
            0 <= j <= orig.len(),
            i as int == orig.subrange(0, j).filter(pred).len(),
            i <= v.len(),
            v@ == orig.subrange(0, j).filter(pred) + orig.subrange(j, orig.len() as int),
            pred == (|d: DiscoveredReaderData| !dropped@.contains(d.reader_guid.prefix)),
        decreases v.len() - i,
    {
        let ghost pre_v = v@;
        proof {
            assert(v@[i as int] == orig[j]);
            lemma_filter_step(orig, pred, j);
        }
        let entry = vstd::slice::slice_index_get(v.as_slice(), i);
        let keep = !contains_prefix(dropped, entry.reader_guid.prefix);
        proof {
            assert(keep == pred(orig[j]));
        }
        if keep {
            i = i + 1;
            proof {
                j = j + 1;
                assert(v@ =~= orig.subrange(0, j).filter(pred) + orig.subrange(
                    j,
                    orig.len() as int,
                ));
            }
        } else {
            v.remove(i);
            proof {
                lemma_remove_keeps_readers_unique(pre_v, i as int);
                j = j + 1;
                assert(v@ =~= orig.subrange(0, j).filter(pred) + orig.subrange(
                    j,
                    orig.len() as int,
                ));
            }
        }
    }
    proof {
        assert(j == orig.len());
        assert(orig.subrange(0, orig.len() as int) =~= orig);
    }
}

/// Drops every writer endpoint whose participant prefix is listed.
fn remove_writers_with_prefixes(v: &mut Vec<DiscoveredWriterData>, dropped: &Vec<GuidPrefix>)
    requires
        spec_writer_guids_unique(old(v)@),
    ensures
        final(v)@ == old(v)@.filter(
            (|d: DiscoveredWriterData| !dropped@.contains(d.writer_guid.prefix)),
        ),
        spec_writer_guids_unique(final(v)@),
{
    let ghost orig = v@;
    let ghost pred = (|d: DiscoveredWriterData| !dropped@.contains(d.writer_guid.prefix));
    let mut i: usize = 0;
    let ghost mut j: int = 0;
    proof {
        reveal(Seq::filter);
        assert(orig.subrange(0, 0).filter(pred).len() == 0);
        assert(v@ =~= orig.subrange(0, 0).filter(pred) + orig.subrange(0, orig.len() as int));
    }
    while i < v.len()
        invariant
            spec_writer_guids_unique(v@),
            0 <= j <= orig.len(),
            i as int == orig.subrange(0, j).filter(pred).len(),
            i <= v.len(),
            v@ == orig.subrange(0, j).filter(pred) + orig.subrange(j, orig.len() as int),
            pred == (|d: DiscoveredWriterData| !dropped@.contains(d.writer_guid.prefix)),
        decreases v.len() - i,
    {
        let ghost pre_v = v@;
        proof {
            assert(v@[i as int] == orig[j]);
            lemma_filter_step(orig, pred, j);
        }
        let entry = vstd::slice::slice_index_get(v.as_slice(), i);
        let keep = !contains_prefix(dropped, entry.writer_guid.prefix);
        proof {
            assert(keep == pred(orig[j]));
        }
        if keep {
            i = i + 1;
            proof {
                j = j + 1;
                assert(v@ =~= orig.subrange(0, j).filter(pred) + orig.subrange(
                    j,
                    orig.len() as int,
                ));
            }
        } else {
            v.remove(i);
            proof {
                lemma_remove_keeps_writers_unique(pre_v, i as int);
                j = j + 1;
                assert(v@ =~= orig.subrange(0, j).filter(pred) + orig.subrange(
                    j,
                    orig.len() as int,
                ));
            }
        }
    }
    proof {
        assert(j == orig.len());
        assert(orig.subrange(0, orig.len() as int) =~= orig);
    }
}

/// A topic of this name is named by at least one local or remote endpoint.
pub open spec fn spec_topic_referenced(
    name: Seq<char>,
    lr: Seq<DiscoveredReaderData>,
    lw: Seq<DiscoveredWriterData>,
    er: Seq<DiscoveredReaderData>,
    ew: Seq<DiscoveredWriterData>,
) -> bool {
    ||| exists|i: int| 0 <= i < lr.len() && lr[i].topic_name@ == name
    ||| exists|i: int| 0 <= i < lw.len() && lw[i].topic_name@ == name
    ||| exists|i: int| 0 <= i < er.len() && er[i].topic_name@ == name
    ||| exists|i: int| 0 <= i < ew.len() && ew[i].topic_name@ == name
}

fn reader_list_has_topic(v: &Vec<DiscoveredReaderData>, name: &String) -> (r: bool)
    ensures
        r == exists|i: int| 0 <= i < v@.len() && v@[i].topic_name@ == name@,
{
    let mut i: usize = 0;
    while i < v.len()
        invariant
            i <= v.len(),
            forall|k: int| 0 <= k < i ==> v@[k].topic_name@ != name@,
        decreases v.len() - i,
    {
        let entry = vstd::slice::slice_index_get(v.as_slice(), i);
        if entry.topic_name == *name {
            proof {
                assert(v@[i as int].topic_name@ == name@);
            }
            return true;
        }
        i = i + 1;
    }
    false
}

fn writer_list_has_topic(v: &Vec<DiscoveredWriterData>, name: &String) -> (r: bool)
    ensures
        r == exists|i: int| 0 <= i < v@.len() && v@[i].topic_name@ == name@,
{
    let mut i: usize = 0;
    while i < v.len()
        invariant
            i <= v.len(),
            forall|k: int| 0 <= k < i ==> v@[k].topic_name@ != name@,
        decreases v.len() - i,
    {
        let entry = vstd::slice::slice_index_get(v.as_slice(), i);
        if entry.topic_name == *name {
            proof {
                assert(v@[i as int].topic_name@ == name@);
            }
            return true;
        }
        i = i + 1;
    }
    false
}

/// Drops every topic record that no endpoint references.
fn retain_referenced_topics(
    v: &mut Vec<DiscoveredTopicData>,
    lr: &Vec<DiscoveredReaderData>,
    lw: &Vec<DiscoveredWriterData>,
    er: &Vec<DiscoveredReaderData>,
    ew: &Vec<DiscoveredWriterData>,
)
    requires
        spec_topic_names_unique(old(v)@),
    ensures
        final(v)@ == old(v)@.filter(
            (|t: DiscoveredTopicData| spec_topic_referenced(t.topic_name@, lr@, lw@, er@, ew@)),
        ),
        spec_topic_names_unique(final(v)@),
{
    let ghost orig = v@;
    let ghost pred = (|t: DiscoveredTopicData| spec_topic_referenced(
        t.topic_name@,
        lr@,
        lw@,
        er@,
        ew@,
    ));
    let mut i: usize = 0;
    let ghost mut j: int = 0;
    proof {
        reveal(Seq::filter);
        assert(orig.subrange(0, 0).filter(pred).len() == 0);
        assert(v@ =~= orig.subrange(0, 0).filter(pred) + orig.subrange(0, orig.len() as int));
    }
    while i < v.len()
        invariant
            spec_topic_names_unique(v@),
            0 <= j <= orig.len(),
            i as int == orig.subrange(0, j).filter(pred).len(),
            i <= v.len(),
            v@ == orig.subrange(0, j).filter(pred) + orig.subrange(j, orig.len() as int),
            pred == (|t: DiscoveredTopicData| spec_topic_referenced(
                t.topic_name@,
                lr@,
                lw@,
                er@,
                ew@,
            )),
        decreases v.len() - i,
    {
        let ghost pre_v = v@;
        proof {
            assert(v@[i as int] == orig[j]);
            lemma_filter_step(orig, pred, j);
        }
        let name = {
            let entry = vstd::slice::slice_index_get(v.as_slice(), i);
            &entry.topic_name
        };
        let keep = reader_list_has_topic(lr, name) || writer_list_has_topic(lw, name)
            || reader_list_has_topic(er, name) || writer_list_has_topic(ew, name);
        proof {
            assert(keep == pred(orig[j]));
        }
        if keep {
            i = i + 1;
            proof {
                j = j + 1;
                assert(v@ =~= orig.subrange(0, j).filter(pred) + orig.subrange(
                    j,
                    orig.len() as int,
                ));
            }
        } else {
            v.remove(i);
            proof {
                lemma_remove_keeps_topics_unique(pre_v, i as int);
                j = j + 1;
                assert(v@ =~= orig.subrange(0, j).filter(pred) + orig.subrange(
                    j,
                    orig.len() as int,
                ));
            }
        }
    }
    proof {
        assert(j == orig.len());
        assert(orig.subrange(0, orig.len() as int) =~= orig);
    }
}

/// Drops every participant with this prefix.
fn remove_participants_with_prefix(v: &mut Vec<ParticipantProxy>, prefix: GuidPrefix)
    requires
        spec_participants_unique(old(v)@),
    ensures
        final(v)@ == old(v)@.filter(
            (|p: ParticipantProxy| p.data.participant_guid.prefix != prefix),
        ),
        spec_participants_unique(final(v)@),
{
    let ghost orig = v@;
    let ghost pred = (|p: ParticipantProxy| p.data.participant_guid.prefix != prefix);
    let mut i: usize = 0;
    let ghost mut j: int = 0;
    proof {
        reveal(Seq::filter);
        assert(orig.subrange(0, 0).filter(pred).len() == 0);
        assert(v@ =~= orig.subrange(0, 0).filter(pred) + orig.subrange(0, orig.len() as int));
    }
    while i < v.len()
        invariant
            spec_participants_unique(v@),
            0 <= j <= orig.len(),
            i as int == orig.subrange(0, j).filter(pred).len(),
            i <= v.len(),
            v@ == orig.subrange(0, j).filter(pred) + orig.subrange(j, orig.len() as int),
            pred == (|p: ParticipantProxy| p.data.participant_guid.prefix != prefix),
        decreases v.len() - i,
    {
        let ghost pre_v = v@;
        proof {
            assert(v@[i as int] == orig[j]);
            lemma_filter_step(orig, pred, j);
        }
        let entry = vstd::slice::slice_index_get(v.as_slice(), i);
        let keep = entry.data.participant_guid.prefix != prefix;
        proof {
            assert(keep == pred(orig[j]));
        }
        if keep {
            i = i + 1;
            proof {
                j = j + 1;
                assert(v@ =~= orig.subrange(0, j).filter(pred) + orig.subrange(
                    j,
                    orig.len() as int,
                ));
            }
        } else {
            v.remove(i);
            proof {
                lemma_remove_keeps_participants_unique(pre_v, i as int);
                j = j + 1;
                assert(v@ =~= orig.subrange(0, j).filter(pred) + orig.subrange(
                    j,
                    orig.len() as int,
                ));
            }
        }
    }
    proof {
        assert(j == orig.len());
        assert(orig.subrange(0, orig.len() as int) =~= orig);
    }
}

impl DiscoveryDB {
    /// Forgets a disposed participant and every endpoint it owned.
    pub fn remove_participant(&mut self, guid: GUID)
        requires
            old(self).wf(),
        ensures
            final(self).wf(),
            *final(self) == (DiscoveryDB {
                participants: final(self).participants,
                external_topic_readers: final(self).external_topic_readers,
                external_topic_writers: final(self).external_topic_writers,
                ..*old(self)
            }),
            final(self).participants@ == old(self).participants@.filter(
                (|p: ParticipantProxy| p.data.participant_guid.prefix != guid.prefix),
            ),
            final(self).external_topic_readers@ == old(self).external_topic_readers@.filter(
                (|d: DiscoveredReaderData| d.reader_guid.prefix != guid.prefix),
            ),
            final(self).external_topic_writers@ == old(self).external_topic_writers@.filter(
                (|d: DiscoveredWriterData| d.writer_guid.prefix != guid.prefix),
            ),
    {
        remove_participants_with_prefix(&mut self.participants, guid.prefix);
        let mut dropped: Vec<GuidPrefix> = Vec::new();
        dropped.push(guid.prefix);
        let ghost pre_readers = self.external_topic_readers@;
        remove_readers_with_prefixes(&mut self.external_topic_readers, &dropped);
        proof {
            assert forall|k: int| 0 <= k < pre_readers.len() implies (|d: DiscoveredReaderData|
                !dropped@.contains(d.reader_guid.prefix))(#[trigger] pre_readers[k]) == (
            |d: DiscoveredReaderData| d.reader_guid.prefix != guid.prefix)(pre_readers[k]) by {
                if pre_readers[k].reader_guid.prefix == guid.prefix {
                    assert(dropped@[0] == guid.prefix);
                    assert(dropped@.contains(pre_readers[k].reader_guid.prefix));
                } else {
                    if dropped@.contains(pre_readers[k].reader_guid.prefix) {
                        let w = choose|w: int|
                            0 <= w < dropped@.len() && dropped@[w]
                                == pre_readers[k].reader_guid.prefix;
                        assert(w == 0);
                    }
                }
            }
            lemma_filter_congruence(
                pre_readers,
                (|d: DiscoveredReaderData| !dropped@.contains(d.reader_guid.prefix)),
                (|d: DiscoveredReaderData| d.reader_guid.prefix != guid.prefix),
            );
        }
        let ghost pre_writers = self.external_topic_writers@;
        remove_writers_with_prefixes(&mut self.external_topic_writers, &dropped);
        proof {
            assert forall|k: int| 0 <= k < pre_writers.len() implies (|d: DiscoveredWriterData|
                !dropped@.contains(d.writer_guid.prefix))(#[trigger] pre_writers[k]) == (
            |d: DiscoveredWriterData| d.writer_guid.prefix != guid.prefix)(pre_writers[k]) by {
                if pre_writers[k].writer_guid.prefix == guid.prefix {
                    assert(dropped@[0] == guid.prefix);
                    assert(dropped@.contains(pre_writers[k].writer_guid.prefix));
                } else {
                    if dropped@.contains(pre_writers[k].writer_guid.prefix) {
                        let w = choose|w: int|
                            0 <= w < dropped@.len() && dropped@[w]
                                == pre_writers[k].writer_guid.prefix;
                        assert(w == 0);
                    }
                }
            }
            lemma_filter_congruence(
                pre_writers,
                (|d: DiscoveredWriterData| !dropped@.contains(d.writer_guid.prefix)),
                (|d: DiscoveredWriterData| d.writer_guid.prefix != guid.prefix),
            );
        }
    }

    /// Expires every participant whose lease has run out at `now`, and with
    /// it every endpoint under its prefix. Returns whether any reader,
    /// respectively any writer, was dropped.
    pub fn participant_cleanup(&mut self, now: Timestamp) -> (r: (bool, bool))
        requires
            old(self).wf(),
        ensures
            final(self).wf(),
            *final(self) == (DiscoveryDB {
                participants: final(self).participants,
                external_topic_readers: final(self).external_topic_readers,
                external_topic_writers: final(self).external_topic_writers,
                ..*old(self)
            }),
            final(self).participants@ == old(self).participants@.filter(
                (|p: ParticipantProxy| spec_participant_alive(p, now)),
            ),
            final(self).external_topic_readers@ == old(self).external_topic_readers@.filter(
                (|d: DiscoveredReaderData| !spec_expired_prefix(
                    old(self).participants@,
                    d.reader_guid.prefix,
                    now,
                )),
            ),
            final(self).external_topic_writers@ == old(self).external_topic_writers@.filter(
                (|d: DiscoveredWriterData| !spec_expired_prefix(
                    old(self).participants@,
                    d.writer_guid.prefix,
                    now,
                )),
            ),
            r.0 == (final(self).external_topic_readers@.len() != old(self).external_topic_readers@.len()),
            r.1 == (final(self).external_topic_writers@.len() != old(self).external_topic_writers@.len()),
    {
        let ghost orig_parts = self.participants@;
        let dropped = collect_expired_prefixes(&self.participants, now);
        retain_live_participants(&mut self.participants, now);
        let readers_before = self.external_topic_readers.len();
        let ghost pre_readers = self.external_topic_readers@;
        remove_readers_with_prefixes(&mut self.external_topic_readers, &dropped);
        proof {
            assert forall|k: int| 0 <= k < pre_readers.len() implies (|d: DiscoveredReaderData|
                !dropped@.contains(d.reader_guid.prefix))(#[trigger] pre_readers[k]) == (
            |d: DiscoveredReaderData| !spec_expired_prefix(
                orig_parts,
                d.reader_guid.prefix,
                now,
            ))(pre_readers[k]) by {
                assert(dropped@.contains(pre_readers[k].reader_guid.prefix)
                    <==> spec_expired_prefix(orig_parts, pre_readers[k].reader_guid.prefix, now));
            }
            lemma_filter_congruence(
                pre_readers,
                (|d: DiscoveredReaderData| !dropped@.contains(d.reader_guid.prefix)),
                (|d: DiscoveredReaderData| !spec_expired_prefix(
                    orig_parts,
                    d.reader_guid.prefix,
                    now,
                )),
            );
        }
        let readers_removed = self.external_topic_readers.len() != readers_before;
        let writers_before = self.external_topic_writers.len();
        let ghost pre_writers = self.external_topic_writers@;
        remove_writers_with_prefixes(&mut self.external_topic_writers, &dropped);
        proof {
            assert forall|k: int| 0 <= k < pre_writers.len() implies (|d: DiscoveredWriterData|
                !dropped@.contains(d.writer_guid.prefix))(#[trigger] pre_writers[k]) == (
            |d: DiscoveredWriterData| !spec_expired_prefix(
                orig_parts,
                d.writer_guid.prefix,
                now,
            ))(pre_writers[k]) by {
                assert(dropped@.contains(pre_writers[k].writer_guid.prefix)
                    <==> spec_expired_prefix(orig_parts, pre_writers[k].writer_guid.prefix, now));
            }
            lemma_filter_congruence(
                pre_writers,
                (|d: DiscoveredWriterData| !dropped@.contains(d.writer_guid.prefix)),
                (|d: DiscoveredWriterData| !spec_expired_prefix(
                    orig_parts,
                    d.writer_guid.prefix,
                    now,
                )),
            );
        }
        let writers_removed = self.external_topic_writers.len() != writers_before;
        (readers_removed, writers_removed)
    }

    /// Drops every topic record that no remaining endpoint references.
    pub fn topic_cleanup(&mut self)
        requires
            old(self).wf(),
        ensures
            final(self).wf(),
            *final(self) == (DiscoveryDB { topics: final(self).topics, ..*old(self) }),
            final(self).topics@ == old(self).topics@.filter(
                (|t: DiscoveredTopicData| spec_topic_referenced(
                    t.topic_name@,
                    old(self).local_topic_readers@,
                    old(self).local_topic_writers@,
                    old(self).external_topic_readers@,
                    old(self).external_topic_writers@,
                )),
            ),
    {
        retain_referenced_topics(
            &mut self.topics,
            &self.local_topic_readers,
            &self.local_topic_writers,
            &self.external_topic_readers,
            &self.external_topic_writers,
        );
    }

    /// A liveliness assertion refreshes the matching participant's lease
    /// stamp; an assertion from an unknown participant changes nothing.
    pub fn update_lease_duration(&mut self, msg: &ParticipantMessageData, now: Timestamp)
        requires
            old(self).wf(),
        ensures
            final(self).wf(),
            *final(self) == (DiscoveryDB {
                participants: final(self).participants,
                ..*old(self)
            }),
            ({
                let parts = old(self).participants@;
                if spec_has_participant(parts, msg.guid) {
                    let i = spec_participant_index(parts, msg.guid);
                    &&& final(self).participants@.len() == parts.len()
                    &&& forall|k: int|
                        0 <= k < parts.len() && k != i ==> final(self).participants@[k]
                            == parts[k]
                    &&& final(self).participants@[i].data == parts[i].data
                    &&& final(self).participants@[i].last_heard == now
                } else {
                    final(self).participants@ == parts
                }
            }),
    {
        let ghost pre = self.participants@;
        match find_participant(&self.participants, &msg.guid) {
            Some(i) => {
                let mut entry = self.participants.remove(i);
                entry.last_heard = now;
                let ghost updated = entry;
                self.participants.insert(i, entry);
                proof {
                    let post = self.participants@;
                    assert(post =~= pre.update(i as int, updated));
                    lemma_participant_index_unique(pre, i as int);
                    assert forall|a: int, b: int|
                        0 <= a < b < post.len() implies post[a].data.participant_guid.prefix
                        != post[b].data.participant_guid.prefix by {
                        if a != i && b != i {
                            assert(post[a] == pre[a]);
                            assert(post[b] == pre[b]);
                        }
                    }
                }
            },
            None => (),
        }
    }

    /// Drops the remote reader endpoint with this GUID, if known.
    pub fn remove_topic_reader(&mut self, guid: GUID)
        requires
            old(self).wf(),
        ensures
            final(self).wf(),
            *final(self) == (DiscoveryDB {
                external_topic_readers: final(self).external_topic_readers,
                ..*old(self)
            }),
            !spec_has_reader(final(self).external_topic_readers@, guid),
            spec_has_reader(old(self).external_topic_readers@, guid) ==> final(self).external_topic_readers@ == old(self).external_topic_readers@.remove(
                spec_reader_index(old(self).external_topic_readers@, guid),
            ),
            !spec_has_reader(old(self).external_topic_readers@, guid) ==> final(self).external_topic_readers@ == old(self).external_topic_readers@,
    {
        let ghost pre = self.external_topic_readers@;
        match find_reader(&self.external_topic_readers, &guid) {
            Some(i) => {
                let _ = self.external_topic_readers.remove(i);
                proof {
                    lemma_reader_index_unique(pre, i as int);
                    lemma_remove_keeps_readers_unique(pre, i as int);
                    let post = self.external_topic_readers@;
                    assert forall|k: int| 0 <= k < post.len() implies post[k].reader_guid
                        != guid by {
                        if k < i {
                            assert(post[k] == pre[k]);
                        } else {
                            assert(post[k] == pre[k + 1]);
                        }
                    }
                }
            },
            None => (),
        }
    }

    /// Drops the remote writer endpoint with this GUID, if known.
    pub fn remove_topic_writer(&mut self, guid: GUID)
        requires
            old(self).wf(),
        ensures
            final(self).wf(),
            *final(self) == (DiscoveryDB {
                external_topic_writers: final(self).external_topic_writers,
                ..*old(self)
            }),
            !spec_has_writer(final(self).external_topic_writers@, guid),
            spec_has_writer(old(self).external_topic_writers@, guid) ==> final(self).external_topic_writers@ == old(self).external_topic_writers@.remove(
                spec_writer_index(old(self).external_topic_writers@, guid),
            ),
            !spec_has_writer(old(self).external_topic_writers@, guid) ==> final(self).external_topic_writers@ == old(self).external_topic_writers@,
    {
        let ghost pre = self.external_topic_writers@;
        match find_writer(&self.external_topic_writers, &guid) {
            Some(i) => {
                let _ = self.external_topic_writers.remove(i);
                proof {
                    lemma_writer_index_unique(pre, i as int);
                    lemma_remove_keeps_writers_unique(pre, i as int);
                    let post = self.external_topic_writers@;
                    assert forall|k: int| 0 <= k < post.len() implies post[k].writer_guid
                        != guid by {
                        if k < i {
                            assert(post[k] == pre[k]);
                        } else {
                            assert(post[k] == pre[k + 1]);
                        }
                    }
                }
            },
            None => (),
        }
    }

    /// Drops the local reader advertised under this GUID, if any.
    pub fn remove_local_topic_reader(&mut self, guid: GUID)
        requires
            old(self).wf(),
        ensures
            final(self).wf(),
            *final(self) == (DiscoveryDB {
                local_topic_readers: final(self).local_topic_readers,
                ..*old(self)
            }),
            !spec_has_reader(final(self).local_topic_readers@, guid),
            spec_has_reader(old(self).local_topic_readers@, guid) ==> final(self).local_topic_readers@ == old(self).local_topic_readers@.remove(
                spec_reader_index(old(self).local_topic_readers@, guid),
            ),
            !spec_has_reader(old(self).local_topic_readers@, guid) ==> final(self).local_topic_readers@ == old(self).local_topic_readers@,
    {
        let ghost pre = self.local_topic_readers@;
        match find_reader(&self.local_topic_readers, &guid) {
            Some(i) => {
                let _ = self.local_topic_readers.remove(i);
                proof {
                    lemma_reader_index_unique(pre, i as int);
                    lemma_remove_keeps_readers_unique(pre, i as int);
                    let post = self.local_topic_readers@;
                    assert forall|k: int| 0 <= k < post.len() implies post[k].reader_guid
                        != guid by {
                        if k < i {
                            assert(post[k] == pre[k]);
                        } else {
                            assert(post[k] == pre[k + 1]);
                        }
                    }
                }
            },
            None => (),
        }
    }

    /// Drops the local writer advertised under this GUID, if any.
    pub fn remove_local_topic_writer(&mut self, guid: GUID)
        requires
            old(self).wf(),
        ensures
            final(self).wf(),
            *final(self) == (DiscoveryDB {
                local_topic_writers: final(self).local_topic_writers,
                ..*old(self)
            }),
            !spec_has_writer(final(self).local_topic_writers@, guid),
            spec_has_writer(old(self).local_topic_writers@, guid) ==> final(self).local_topic_writers@ == old(self).local_topic_writers@.remove(
                spec_writer_index(old(self).local_topic_writers@, guid),
            ),
            !spec_has_writer(old(self).local_topic_writers@, guid) ==> final(self).local_topic_writers@ == old(self).local_topic_writers@,
    {
        let ghost pre = self.local_topic_writers@;
        match find_writer(&self.local_topic_writers, &guid) {
            Some(i) => {
                let _ = self.local_topic_writers.remove(i);
                proof {
                    lemma_writer_index_unique(pre, i as int);
                    lemma_remove_keeps_writers_unique(pre, i as int);
                    let post = self.local_topic_writers@;
                    assert forall|k: int| 0 <= k < post.len() implies post[k].writer_guid
                        != guid by {
                        if k < i {
                            assert(post[k] == pre[k]);
                        } else {
                            assert(post[k] == pre[k + 1]);
                        }
                    }
                }
            },
            None => (),
        }
    }
}

impl DiscoveryDB {
    /// Enters or refreshes the topic record implied by a discovered reader.
    pub fn update_topic_data_drd(&mut self, d: &DiscoveredReaderData) -> (r: bool)
        requires
            old(self).wf(),
        ensures
            final(self).wf(),
            *final(self) == (DiscoveryDB { topics: final(self).topics, ..*old(self) }),
            spec_has_topic_record(final(self).topics@, d.topic_name@),
            ({
                let topics = old(self).topics@;
                let dv = (DiscoveredTopicDataView {
                    topic_name: d@.topic_name,
                    data_type_name: d@.data_type_name,
                    qos: d@.qos,
                });
                if spec_has_topic_record(topics, d.topic_name@) {
                    let i = spec_topic_record_index(topics, d.topic_name@);
                    &&& r == (topics[i]@ != dv)
                    &&& final(self).topics@.len() == topics.len()
                    &&& forall|k: int|
                        0 <= k < topics.len() && k != i ==> final(self).topics@[k] == topics[k]
                    &&& final(self).topics@[i]@ == dv
                } else {
                    &&& r
                    &&& final(self).topics@.len() == topics.len() + 1
                    &&& forall|k: int| 0 <= k < topics.len() ==> final(self).topics@[k] == topics[k]
                    &&& final(self).topics@.last()@ == dv
                }
            }),
    {
        let td = DiscoveredTopicData {
            topic_name: d.topic_name.clone(),
            data_type_name: d.data_type_name.clone(),
            qos: d.qos,
        };
        self.update_topic_data(&td)
    }

    /// Enters or refreshes the topic record implied by a discovered writer.
    pub fn update_topic_data_dwd(&mut self, d: &DiscoveredWriterData) -> (r: bool)
        requires
            old(self).wf(),
        ensures
            final(self).wf(),
            *final(self) == (DiscoveryDB { topics: final(self).topics, ..*old(self) }),
            spec_has_topic_record(final(self).topics@, d.topic_name@),
            ({
                let topics = old(self).topics@;
                let dv = (DiscoveredTopicDataView {
                    topic_name: d@.topic_name,
                    data_type_name: d@.data_type_name,
                    qos: d@.qos,
                });
                if spec_has_topic_record(topics, d.topic_name@) {
                    let i = spec_topic_record_index(topics, d.topic_name@);
                    &&& r == (topics[i]@ != dv)
                    &&& final(self).topics@.len() == topics.len()
                    &&& forall|k: int|
                        0 <= k < topics.len() && k != i ==> final(self).topics@[k] == topics[k]
                    &&& final(self).topics@[i]@ == dv
                } else {
                    &&& r
                    &&& final(self).topics@.len() == topics.len() + 1
                    &&& forall|k: int| 0 <= k < topics.len() ==> final(self).topics@[k] == topics[k]
                    &&& final(self).topics@.last()@ == dv
                }
            }),
    {
        let td = DiscoveredTopicData {
            topic_name: d.topic_name.clone(),
            data_type_name: d.data_type_name.clone(),
            qos: d.qos,
        };
        self.update_topic_data(&td)
    }

    /// Advertises or refreshes a local reader and flags the reader table
    /// as needing a publish.
    pub fn update_local_topic_reader(&mut self, data: &DiscoveredReaderData) -> (r: bool)
        requires
            old(self).wf(),
        ensures
            final(self).wf(),
            *final(self) == (DiscoveryDB {
                local_topic_readers: final(self).local_topic_readers,
                readers_updated: true,
                ..*old(self)
            }),
            spec_has_reader(final(self).local_topic_readers@, data.reader_guid),
            ({
                let readers = old(self).local_topic_readers@;
                if spec_has_reader(readers, data.reader_guid) {
                    let i = spec_reader_index(readers, data.reader_guid);
                    &&& r == (readers[i]@ != data@)
                    &&& final(self).local_topic_readers@.len() == readers.len()
                    &&& forall|k: int|
                        0 <= k < readers.len() && k != i ==> final(self).local_topic_readers@[k]
                            == readers[k]
                    &&& final(self).local_topic_readers@[i]@ == data@
                } else {
                    &&& r
                    &&& final(self).local_topic_readers@.len() == readers.len() + 1
                    &&& forall|k: int|
                        0 <= k < readers.len() ==> final(self).local_topic_readers@[k]
                            == readers[k]
                    &&& final(self).local_topic_readers@.last()@ == data@
                }
            }),
    {
        self.readers_updated = true;
        let ghost pre = self.local_topic_readers@;
        match find_reader(&self.local_topic_readers, &data.reader_guid) {
            Some(i) => {
                let changed = !reader_data_equal(&self.local_topic_readers[i], data);
                let entry = data.clone();
                let _ = self.local_topic_readers.remove(i);
                self.local_topic_readers.insert(i, entry);
                proof {
                    let post = self.local_topic_readers@;
                    assert(post =~= pre.update(i as int, entry));
                    lemma_reader_index_unique(pre, i as int);
                    assert forall|a: int, b: int|
                        0 <= a < b < post.len() implies post[a].reader_guid
                        != post[b].reader_guid by {
                        if a != i && b != i {
                            assert(post[a] == pre[a]);
                            assert(post[b] == pre[b]);
                        }
                    }
                    assert(post[i as int].reader_guid == data.reader_guid);
                    assert(spec_has_reader(post, data.reader_guid));
                }
                changed
            },
            None => {
                let entry = data.clone();
                self.local_topic_readers.push(entry);
                proof {
                    let post = self.local_topic_readers@;
                    assert forall|a: int, b: int|
                        0 <= a < b < post.len() implies post[a].reader_guid
                        != post[b].reader_guid by {
                        if b == pre.len() {
                            assert(post[a] == pre[a]);
                            if post[a].reader_guid == data.reader_guid {
                                assert(spec_has_reader(pre, data.reader_guid));
                            }
                        }
                    }
                    assert(post[pre.len() as int].reader_guid == data.reader_guid);
                    assert(spec_has_reader(post, data.reader_guid));
                }
                true
            },
        }
    }

    /// Advertises or refreshes a local writer and flags the writer table
    /// as needing a publish.
    pub fn update_local_topic_writer(&mut self, data: &DiscoveredWriterData) -> (r: bool)
        requires
            old(self).wf(),
        ensures
            final(self).wf(),
            *final(self) == (DiscoveryDB {
                local_topic_writers: final(self).local_topic_writers,
                writers_updated: true,
                ..*old(self)
            }),
            spec_has_writer(final(self).local_topic_writers@, data.writer_guid),
            ({
                let writers = old(self).local_topic_writers@;
                if spec_has_writer(writers, data.writer_guid) {
                    let i = spec_writer_index(writers, data.writer_guid);
                    &&& r == (writers[i]@ != data@)
                    &&& final(self).local_topic_writers@.len() == writers.len()
                    &&& forall|k: int|
                        0 <= k < writers.len() && k != i ==> final(self).local_topic_writers@[k]
                            == writers[k]
                    &&& final(self).local_topic_writers@[i]@ == data@
                } else {
                    &&& r
                    &&& final(self).local_topic_writers@.len() == writers.len() + 1
                    &&& forall|k: int|
                        0 <= k < writers.len() ==> final(self).local_topic_writers@[k]
                            == writers[k]
                    &&& final(self).local_topic_writers@.last()@ == data@
                }
            }),
    {
        self.writers_updated = true;
        let ghost pre = self.local_topic_writers@;
        match find_writer(&self.local_topic_writers, &data.writer_guid) {
            Some(i) => {
                let changed = !writer_data_equal(&self.local_topic_writers[i], data);
                let entry = data.clone();
                let _ = self.local_topic_writers.remove(i);
                self.local_topic_writers.insert(i, entry);
                proof {
                    let post = self.local_topic_writers@;
                    assert(post =~= pre.update(i as int, entry));
                    lemma_writer_index_unique(pre, i as int);
                    assert forall|a: int, b: int|
                        0 <= a < b < post.len() implies post[a].writer_guid
                        != post[b].writer_guid by {
                        if a != i && b != i {
                            assert(post[a] == pre[a]);
                            assert(post[b] == pre[b]);
                        }
                    }
                    assert(post[i as int].writer_guid == data.writer_guid);
                    assert(spec_has_writer(post, data.writer_guid));
                }
                changed
            },
            None => {
                let entry = data.clone();
                self.local_topic_writers.push(entry);
                proof {
                    let post = self.local_topic_writers@;
                    assert forall|a: int, b: int|
                        0 <= a < b < post.len() implies post[a].writer_guid
                        != post[b].writer_guid by {
                        if b == pre.len() {
                            assert(post[a] == pre[a]);
                            if post[a].writer_guid == data.writer_guid {
                                assert(spec_has_writer(pre, data.writer_guid));
                            }
                        }
                    }
                    assert(post[pre.len() as int].writer_guid == data.writer_guid);
                    assert(spec_has_writer(post, data.writer_guid));
                }
                true
            },
        }
    }
}

} // verus!
