//! The decision logic of the discovery loop: what each inbound built-in
//! sample does to the database, which notifications it raises, what the
//! periodic timers publish, and the liveliness pacing rule.
//!
//! The selector, the timers and the channel plumbing live outside the
//! library; every function here maps the current database and one event
//! to the next database state and the actions to perform.

use vstd::prelude::*;
use crate::discovery_db::{
    DiscoveredReaderData, DiscoveredReaderDataView, DiscoveredTopicData, DiscoveredTopicDataView,
    DiscoveredWriterData, DiscoveredWriterDataView, DiscoveryDB, Locator, ParticipantMessageData,
    ParticipantMessageDataKind, ParticipantProxy, SpdpDiscoveredParticipantData,
    spec_has_participant, spec_has_reader, spec_has_topic_record, spec_has_writer,
    spec_participant_index, spec_reader_index, spec_topic_record_index, spec_writer_index,
    LOCATOR_KIND_UDPV4, SPDP_MULTICAST_ADDRESS,
};
use crate::guid::{spec_is_builtin_reader, spec_is_builtin_writer, GuidPrefix, GUID};
use crate::network::get_spdp_well_known_multicast_port;
use crate::qos::{
    Deadline, DestinationOrder, Durability, History, Liveliness, Ownership, Presentation,
    PresentationAccessScope, QosPolicies, QosPolicyBuilder, Reliability, ResourceLimits,
    TimeBasedFilter, spec_qos_none,
};
use crate::time::{Duration, Timestamp};

verus! {

/// How often stale participants are expired, in nanoseconds.
pub const PARTICIPANT_CLEANUP_PERIOD_NS: u64 = 2_000_000_000;

/// How often unreferenced topics are dropped, in nanoseconds.
pub const TOPIC_CLEANUP_PERIOD_NS: u64 = 10_000_000_000;

/// How often our own SPDP record goes out, in nanoseconds.
pub const SEND_PARTICIPANT_INFO_PERIOD_NS: u64 = 2_000_000_000;

/// How often changed local readers are advertised, in nanoseconds.
pub const SEND_READERS_INFO_PERIOD_NS: u64 = 2_000_000_000;

/// How often changed local writers are advertised, in nanoseconds.
pub const SEND_WRITERS_INFO_PERIOD_NS: u64 = 2_000_000_000;

/// How often known topics are advertised, in nanoseconds.
pub const SEND_TOPIC_INFO_PERIOD_NS: u64 = 20_000_000_000;

/// How often liveliness pacing is checked, in nanoseconds.
pub const CHECK_PARTICIPANT_MESSAGES_PERIOD_NS: u64 = 1_000_000_000;

/// One-way signals from discovery to the data path.
#[derive(Clone, Copy, PartialEq, Eq, Structural, Debug)]
pub enum DiscoveryNotificationType {
    ReadersInfoUpdated,
    WritersInfoUpdated { needs_new_cache_change: bool },
    TopicsInfoUpdated,
    AssertTopicLiveliness { writer_guid: GUID },
}

/// External requests into the discovery loop.
#[allow(non_camel_case_types)]
#[derive(Clone, Copy, PartialEq, Eq, Structural, Hash, Debug)]
pub enum DiscoveryCommand {
    STOP_DISCOVERY,
    REMOVE_LOCAL_WRITER { guid: GUID },
    REMOVE_LOCAL_READER { guid: GUID },
    REFRESH_LAST_MANUAL_LIVELINESS,
    ASSERT_TOPIC_LIVELINESS { writer_guid: GUID },
}

/// When each kind of liveliness assertion last went out.
#[derive(Clone, Copy, PartialEq, Eq, Structural, Debug)]
pub struct LivelinessState {
    pub last_auto_update: Timestamp,
    pub last_manual_participant_update: Timestamp,
}

impl LivelinessState {
    /// Both stamps start at the moment the loop starts.
    pub fn new(now: Timestamp) -> (s: LivelinessState)
        ensures
            s.last_auto_update == now,
            s.last_manual_participant_update == now,
    {
        LivelinessState { last_auto_update: now, last_manual_participant_update: now }
    }
}

/// The QoS of the participant-message built-in endpoints: transient-local,
/// reliable without blocking, keep-last one.
pub fn participant_message_qos() -> (q: QosPolicies)
    ensures
        q == (QosPolicies {
            durability: Some(Durability::TransientLocal),
            reliability: Some(
                Reliability::Reliable { max_blocking_time: Duration { ticks: 0u64 } },
            ),
            history: Some(History::KeepLast { depth: 1i32 }),
            ..spec_qos_none()
        }),
{
    QosPolicyBuilder::new().durability(Durability::TransientLocal).reliability(
        Reliability::Reliable { max_blocking_time: Duration::zero() },
    ).history(History::KeepLast { depth: 1 }).build()
}

/// The QoS of the SPDP participant endpoints: best-effort, keep-last one.
pub fn create_spdp_participant_qos() -> (q: QosPolicies)
    ensures
        q == (QosPolicies {
            reliability: Some(Reliability::BestEffort),
            history: Some(History::KeepLast { depth: 1i32 }),
            ..spec_qos_none()
        }),
{
    QosPolicyBuilder::new().reliability(Reliability::BestEffort).history(
        History::KeepLast { depth: 1 },
    ).build()
}

/// The QoS every other built-in discovery endpoint runs with.
pub fn subscriber_qos() -> (q: QosPolicies)
    ensures
        q == (QosPolicies {
            durability: Some(Durability::TransientLocal),
            presentation: Some(
                Presentation {
                    access_scope: PresentationAccessScope::Topic,
                    coherent_access: false,
                    ordered_access: false,
                },
            ),
            deadline: Some(Deadline(Duration { ticks: crate::time::DURATION_INFINITE_TICKS })),
            ownership: Some(Ownership::Shared),
            liveliness: Some(
                Liveliness::Automatic {
                    lease_duration: Duration { ticks: crate::time::DURATION_INFINITE_TICKS },
                },
            ),
            time_based_filter: Some(TimeBasedFilter { minimum_separation: Duration { ticks: 0u64 } }),
            reliability: Some(
                Reliability::Reliable {
                    max_blocking_time: Duration { ticks: 100_000_000u64 },
                },
            ),
            destination_order: Some(DestinationOrder::ByReceptionTimestamp),
            history: Some(History::KeepAll),
            resource_limits: Some(
                ResourceLimits {
                    max_samples: 0x7fff_ffffi32,
                    max_instances: 0x7fff_ffffi32,
                    max_samples_per_instance: 0x7fff_ffffi32,
                },
            ),
            ..spec_qos_none()
        }),
{
    QosPolicyBuilder::new().durability(Durability::TransientLocal).presentation(
        Presentation {
            access_scope: PresentationAccessScope::Topic,
            coherent_access: false,
            ordered_access: false,
        },
    ).deadline(Deadline(Duration::infinite())).ownership(Ownership::Shared).liveliness(
        Liveliness::Automatic { lease_duration: Duration::infinite() },
    ).time_based_filter(TimeBasedFilter { minimum_separation: Duration::zero() }).reliability(
        Reliability::Reliable { max_blocking_time: Duration::from_millis(100) },
    ).destination_order(DestinationOrder::ByReceptionTimestamp).history(History::KeepAll)
        .resource_limits(
        ResourceLimits {
            max_samples: 0x7fff_ffff,
            max_instances: 0x7fff_ffff,
            max_samples_per_instance: 0x7fff_ffff,
        },
    ).build()
}

/// The lease we advertise in our own SPDP record: three announcement
/// periods, so one lost announcement does not break the lease.
pub fn spdp_publish_lease_duration() -> (d: Duration)
    ensures
        d.ticks == 3 * SEND_PARTICIPANT_INFO_PERIOD_NS,
{
    Duration { ticks: 3 * SEND_PARTICIPANT_INFO_PERIOD_NS }
}

/// Startup: seed the SPDP reader proxy with the well-known multicast
/// locator of this domain, and ask the data path to publish fresh
/// discovery samples.
pub fn initialize_participant(db: &mut DiscoveryDB, domain_id: u16) -> (n:
    DiscoveryNotificationType)
    ensures
        *final(db) == (DiscoveryDB {
            participant_reader_locator: Some(
                Locator {
                    kind: LOCATOR_KIND_UDPV4,
                    address_hi: 0u64,
                    address_lo: SPDP_MULTICAST_ADDRESS,
                    port: (7400 + 250 * domain_id) as u32,
                },
            ),
            ..*old(db)
        }),
        n == (DiscoveryNotificationType::WritersInfoUpdated { needs_new_cache_change: true }),
{
    let port = get_spdp_well_known_multicast_port(domain_id);
    db.initialize_participant_reader_proxy(port);
    DiscoveryNotificationType::WritersInfoUpdated { needs_new_cache_change: true }
}

/// An inbound SPDP sample: a disposal removes the participant and all its
/// endpoints; a live record enters or refreshes the participant. The
/// notifications raised and, for a fresh or changed record, the data to
/// echo into the SPDP writer are handed back.
pub fn handle_participant_reader(
    db: &mut DiscoveryDB,
    sample: Result<&SpdpDiscoveredParticipantData, GUID>,
    now: Timestamp,
) -> (r: (Option<SpdpDiscoveredParticipantData>, Vec<DiscoveryNotificationType>))
    requires
        old(db).wf(),
    ensures
        final(db).wf(),
        match sample {
            Result::Err(g) => {
                &&& *final(db) == (DiscoveryDB {
                    participants: final(db).participants,
                    external_topic_readers: final(db).external_topic_readers,
                    external_topic_writers: final(db).external_topic_writers,
                    ..*old(db)
                })
                &&& final(db).participants@ == old(db).participants@.filter(
                    (|p: ParticipantProxy| p.data.participant_guid.prefix != g.prefix),
                )
                &&& final(db).external_topic_readers@ == old(db).external_topic_readers@.filter(
                    (|d: DiscoveredReaderData| d.reader_guid.prefix != g.prefix),
                )
                &&& final(db).external_topic_writers@ == old(db).external_topic_writers@.filter(
                    (|d: DiscoveredWriterData| d.writer_guid.prefix != g.prefix),
                )
                &&& r.0 is None
                &&& r.1@ == seq![
                    (DiscoveryNotificationType::WritersInfoUpdated {
                        needs_new_cache_change: false,
                    }),
                    DiscoveryNotificationType::ReadersInfoUpdated,
                ]
            },
            Result::Ok(d) => {
                let parts = old(db).participants@;
                let prefix = d.participant_guid.prefix;
                let changed = if spec_has_participant(parts, prefix) {
                    parts[spec_participant_index(parts, prefix)].data@ != d@
                } else {
                    true
                };
                &&& *final(db) == (DiscoveryDB { participants: final(db).participants, ..*old(db) })
                &&& spec_has_participant(final(db).participants@, prefix)
                &&& final(db).participants@[spec_participant_index(
                    final(db).participants@,
                    prefix,
                )].data@ == d@
                &&& final(db).participants@[spec_participant_index(
                    final(db).participants@,
                    prefix,
                )].last_heard == now
                &&& if changed {
                    &&& r.0 matches Some(echo) && echo@ == d@
                    &&& r.1@ == seq![
                        (DiscoveryNotificationType::WritersInfoUpdated {
                            needs_new_cache_change: false,
                        }),
                        DiscoveryNotificationType::ReadersInfoUpdated,
                    ]
                } else {
                    &&& r.0 is None
                    &&& r.1@.len() == 0
                }
            },
        },
{
    match sample {
        Err(g) => {
            db.remove_participant(g);
            let mut notifications: Vec<DiscoveryNotificationType> = Vec::new();
            notifications.push(
                DiscoveryNotificationType::WritersInfoUpdated { needs_new_cache_change: false },
            );
            notifications.push(DiscoveryNotificationType::ReadersInfoUpdated);
            proof {
                assert(notifications@ =~= seq![
                    (DiscoveryNotificationType::WritersInfoUpdated {
                        needs_new_cache_change: false,
                    }),
                    DiscoveryNotificationType::ReadersInfoUpdated,
                ]);
            }
            (None, notifications)
        },
        Ok(d) => {
            let ghost parts = db.participants@;
            let updated = db.update_participant(d, now);
            proof {
                let fin = db.participants@;
                let prefix = d.participant_guid.prefix;
                if spec_has_participant(parts, prefix) {
                    let i = spec_participant_index(parts, prefix);
                    assert(fin[i].data@.participant_guid == d@.participant_guid);
                    assert(fin[i].data.participant_guid.prefix == prefix);
                    crate::discovery_db::lemma_participant_index_unique(fin, i);
                } else {
                    let i = parts.len() as int;
                    assert(fin[i] == fin.last());
                    assert(fin[i].data@.participant_guid == d@.participant_guid);
                    assert(fin[i].data.participant_guid.prefix == prefix);
                    crate::discovery_db::lemma_participant_index_unique(fin, i);
                }
            }
            if updated {
                let mut notifications: Vec<DiscoveryNotificationType> = Vec::new();
                notifications.push(
                    DiscoveryNotificationType::WritersInfoUpdated {
                        needs_new_cache_change: false,
                    },
                );
                notifications.push(DiscoveryNotificationType::ReadersInfoUpdated);
                proof {
                    assert(notifications@ =~= seq![
                        (DiscoveryNotificationType::WritersInfoUpdated {
                            needs_new_cache_change: false,
                        }),
                        DiscoveryNotificationType::ReadersInfoUpdated,
                    ]);
                }
                (Some(d.clone()), notifications)
            } else {
                (None, Vec::new())
            }
        },
    }
}

/// An inbound SEDP subscription sample. A live record is entered into the
/// database together with its topic; a disposal drops the reader.
pub fn handle_subscription_reader(
    db: &mut DiscoveryDB,
    sample: Result<&DiscoveredReaderData, GUID>,
) -> (r: Vec<DiscoveryNotificationType>)
    requires
        old(db).wf(),
    ensures
        final(db).wf(),
        match sample {
            Result::Ok(d) => {
                let readers = old(db).external_topic_readers@;
                let dv = (DiscoveredTopicDataView {
                    topic_name: d@.topic_name,
                    data_type_name: d@.data_type_name,
                    qos: d@.qos,
                });
                &&& *final(db) == (DiscoveryDB {
                    external_topic_readers: final(db).external_topic_readers,
                    topics: final(db).topics,
                    ..*old(db)
                })
                &&& spec_has_reader(final(db).external_topic_readers@, d.reader_guid)
                &&& final(db).external_topic_readers@[spec_reader_index(
                    final(db).external_topic_readers@,
                    d.reader_guid,
                )]@ == d@
                &&& if spec_has_reader(readers, d.reader_guid) {
                    let i = spec_reader_index(readers, d.reader_guid);
                    &&& final(db).external_topic_readers@.len() == readers.len()
                    &&& forall|k: int|
                        0 <= k < readers.len() && k != i ==> final(db).external_topic_readers@[k] == readers[k]
                } else {
                    &&& final(db).external_topic_readers@.len() == readers.len() + 1
                    &&& forall|k: int|
                        0 <= k < readers.len() ==> final(db).external_topic_readers@[k]
                            == readers[k]
                }
                &&& spec_has_topic_record(final(db).topics@, d.topic_name@)
                &&& final(db).topics@[spec_topic_record_index(
                    final(db).topics@,
                    d.topic_name@,
                )]@ == dv
                &&& r@ == seq![
                    (DiscoveryNotificationType::WritersInfoUpdated {
                        needs_new_cache_change: true,
                    }),
                ]
            },
            Result::Err(g) => {
                &&& *final(db) == (DiscoveryDB {
                    external_topic_readers: final(db).external_topic_readers,
                    ..*old(db)
                })
                &&& !spec_has_reader(final(db).external_topic_readers@, g)
                &&& spec_has_reader(old(db).external_topic_readers@, g) ==> final(db).external_topic_readers@ == old(db).external_topic_readers@.remove(
                    spec_reader_index(old(db).external_topic_readers@, g),
                )
                &&& !spec_has_reader(old(db).external_topic_readers@, g) ==> final(db).external_topic_readers@ == old(db).external_topic_readers@
                &&& r@ == seq![
                    (DiscoveryNotificationType::WritersInfoUpdated {
                        needs_new_cache_change: false,
                    }),
                ]
            },
        },
{
    match sample {
        Ok(d) => {
            let ghost readers = db.external_topic_readers@;
            let _ = db.update_subscription(d);
            proof {
                let fin = db.external_topic_readers@;
                if spec_has_reader(readers, d.reader_guid) {
                    let i = spec_reader_index(readers, d.reader_guid);
                    assert(fin[i]@ == d@);
                    assert(fin[i].reader_guid == d.reader_guid);
                    crate::discovery_db::lemma_reader_index_unique(fin, i);
                } else {
                    let i = readers.len() as int;
                    assert(fin[i]@ == d@);
                    assert(fin[i].reader_guid == d.reader_guid);
                    crate::discovery_db::lemma_reader_index_unique(fin, i);
                }
            }
            let ghost topics = db.topics@;
            let _ = db.update_topic_data_drd(d);
            proof {
                let fin = db.topics@;
                let dv = (DiscoveredTopicDataView {
                    topic_name: d@.topic_name,
                    data_type_name: d@.data_type_name,
                    qos: d@.qos,
                });
                if spec_has_topic_record(topics, d.topic_name@) {
                    let i = spec_topic_record_index(topics, d.topic_name@);
                    assert(fin[i]@ == dv);
                    assert(fin[i].topic_name@ == d.topic_name@);
                    crate::discovery_db::lemma_topic_record_index_unique(fin, i);
                } else {
                    let i = topics.len() as int;
                    assert(fin[i]@ == dv);
                    assert(fin[i].topic_name@ == d.topic_name@);
                    crate::discovery_db::lemma_topic_record_index_unique(fin, i);
                }
            }
            let mut notifications: Vec<DiscoveryNotificationType> = Vec::new();
            notifications.push(
                DiscoveryNotificationType::WritersInfoUpdated { needs_new_cache_change: true },
            );
            proof {
                assert(notifications@ =~= seq![
                    (DiscoveryNotificationType::WritersInfoUpdated {
                        needs_new_cache_change: true,
                    }),
                ]);
            }
            notifications
        },
        Err(g) => {
            db.remove_topic_reader(g);
            let mut notifications: Vec<DiscoveryNotificationType> = Vec::new();
            notifications.push(
                DiscoveryNotificationType::WritersInfoUpdated { needs_new_cache_change: false },
            );
            proof {
                assert(notifications@ =~= seq![
                    (DiscoveryNotificationType::WritersInfoUpdated {
                        needs_new_cache_change: false,
                    }),
                ]);
            }
            notifications
        },
    }
}

/// An inbound SEDP publication sample, handled as the subscription side
/// is; either way the reader side must recompute its matches.
pub fn handle_publication_reader(
    db: &mut DiscoveryDB,
    sample: Result<&DiscoveredWriterData, GUID>,
) -> (r: Vec<DiscoveryNotificationType>)
    requires
        old(db).wf(),
    ensures
        final(db).wf(),
        r@ == seq![DiscoveryNotificationType::ReadersInfoUpdated],
        match sample {
            Result::Ok(d) => {
                let writers = old(db).external_topic_writers@;
                let dv = (DiscoveredTopicDataView {
                    topic_name: d@.topic_name,
                    data_type_name: d@.data_type_name,
                    qos: d@.qos,
                });
                &&& *final(db) == (DiscoveryDB {
                    external_topic_writers: final(db).external_topic_writers,
                    topics: final(db).topics,
                    ..*old(db)
                })
                &&& spec_has_writer(final(db).external_topic_writers@, d.writer_guid)
                &&& final(db).external_topic_writers@[spec_writer_index(
                    final(db).external_topic_writers@,
                    d.writer_guid,
                )]@ == d@
                &&& if spec_has_writer(writers, d.writer_guid) {
                    let i = spec_writer_index(writers, d.writer_guid);
                    &&& final(db).external_topic_writers@.len() == writers.len()
                    &&& forall|k: int|
                        0 <= k < writers.len() && k != i ==> final(db).external_topic_writers@[k] == writers[k]
                } else {
                    &&& final(db).external_topic_writers@.len() == writers.len() + 1
                    &&& forall|k: int|
                        0 <= k < writers.len() ==> final(db).external_topic_writers@[k]
                            == writers[k]
                }
                &&& spec_has_topic_record(final(db).topics@, d.topic_name@)
                &&& final(db).topics@[spec_topic_record_index(
                    final(db).topics@,
                    d.topic_name@,
                )]@ == dv
            },
            Result::Err(g) => {
                &&& *final(db) == (DiscoveryDB {
                    external_topic_writers: final(db).external_topic_writers,
                    ..*old(db)
                })
                &&& !spec_has_writer(final(db).external_topic_writers@, g)
                &&& spec_has_writer(old(db).external_topic_writers@, g) ==> final(db).external_topic_writers@ == old(db).external_topic_writers@.remove(
                    spec_writer_index(old(db).external_topic_writers@, g),
                )
                &&& !spec_has_writer(old(db).external_topic_writers@, g) ==> final(db).external_topic_writers@ == old(db).external_topic_writers@
            },
        },
{
    match sample {
        Ok(d) => {
            let ghost writers = db.external_topic_writers@;
            let _ = db.update_publication(d);
            proof {
                let fin = db.external_topic_writers@;
                if spec_has_writer(writers, d.writer_guid) {
                    let i = spec_writer_index(writers, d.writer_guid);
                    assert(fin[i]@ == d@);
                    assert(fin[i].writer_guid == d.writer_guid);
                    crate::discovery_db::lemma_writer_index_unique(fin, i);
                } else {
                    let i = writers.len() as int;
                    assert(fin[i]@ == d@);
                    assert(fin[i].writer_guid == d.writer_guid);
                    crate::discovery_db::lemma_writer_index_unique(fin, i);
                }
            }
            let ghost topics = db.topics@;
            let _ = db.update_topic_data_dwd(d);
            proof {
                let fin = db.topics@;
                let dv = (DiscoveredTopicDataView {
                    topic_name: d@.topic_name,
                    data_type_name: d@.data_type_name,
                    qos: d@.qos,
                });
                if spec_has_topic_record(topics, d.topic_name@) {
                    let i = spec_topic_record_index(topics, d.topic_name@);
                    assert(fin[i]@ == dv);
                    assert(fin[i].topic_name@ == d.topic_name@);
                    crate::discovery_db::lemma_topic_record_index_unique(fin, i);
                } else {
                    let i = topics.len() as int;
                    assert(fin[i]@ == dv);
                    assert(fin[i].topic_name@ == d.topic_name@);
                    crate::discovery_db::lemma_topic_record_index_unique(fin, i);
                }
            }
            let mut notifications: Vec<DiscoveryNotificationType> = Vec::new();
            notifications.push(DiscoveryNotificationType::ReadersInfoUpdated);
            proof {
                assert(notifications@ =~= seq![DiscoveryNotificationType::ReadersInfoUpdated]);
            }
            notifications
        },
        Err(g) => {
            db.remove_topic_writer(g);
            let mut notifications: Vec<DiscoveryNotificationType> = Vec::new();
            notifications.push(DiscoveryNotificationType::ReadersInfoUpdated);
            proof {
                assert(notifications@ =~= seq![DiscoveryNotificationType::ReadersInfoUpdated]);
            }
            notifications
        },
    }
}

/// An inbound SEDP topic sample: the record is entered or refreshed, and
/// a change is signalled only when something was actually new.
pub fn handle_topic_reader(db: &mut DiscoveryDB, d: &DiscoveredTopicData) -> (r: Vec<
    DiscoveryNotificationType,
>)
    requires
        old(db).wf(),
    ensures
        final(db).wf(),
        *final(db) == (DiscoveryDB { topics: final(db).topics, ..*old(db) }),
        spec_has_topic_record(final(db).topics@, d.topic_name@),
        final(db).topics@[spec_topic_record_index(final(db).topics@, d.topic_name@)]@ == d@,
        ({
            let topics = old(db).topics@;
            let changed = if spec_has_topic_record(topics, d.topic_name@) {
                topics[spec_topic_record_index(topics, d.topic_name@)]@ != d@
            } else {
                true
            };
            &&& changed ==> r@ == seq![DiscoveryNotificationType::TopicsInfoUpdated]
            &&& !changed ==> r@.len() == 0
        }),
{
    let ghost topics = db.topics@;
    let updated = db.update_topic_data(d);
    proof {
        let fin = db.topics@;
        if spec_has_topic_record(topics, d.topic_name@) {
            let i = spec_topic_record_index(topics, d.topic_name@);
            assert(fin[i]@ == d@);
            assert(fin[i].topic_name@ == d.topic_name@);
            crate::discovery_db::lemma_topic_record_index_unique(fin, i);
        } else {
            let i = topics.len() as int;
            assert(fin[i]@ == d@);
            assert(fin[i].topic_name@ == d.topic_name@);
            crate::discovery_db::lemma_topic_record_index_unique(fin, i);
        }
    }
    if updated {
        let mut notifications: Vec<DiscoveryNotificationType> = Vec::new();
        notifications.push(DiscoveryNotificationType::TopicsInfoUpdated);
        proof {
            assert(notifications@ =~= seq![DiscoveryNotificationType::TopicsInfoUpdated]);
        }
        notifications
    } else {
        Vec::new()
    }
}

/// An inbound liveliness assertion refreshes the sender's lease stamp.
pub fn handle_participant_message_reader(
    db: &mut DiscoveryDB,
    msg: &ParticipantMessageData,
    now: Timestamp,
)
    requires
        old(db).wf(),
    ensures
        final(db).wf(),
        *final(db) == (DiscoveryDB { participants: final(db).participants, ..*old(db) }),
        ({
            let parts = old(db).participants@;
            if spec_has_participant(parts, msg.guid) {
                let i = spec_participant_index(parts, msg.guid);
                &&& final(db).participants@.len() == parts.len()
                &&& forall|k: int|
                    0 <= k < parts.len() && k != i ==> final(db).participants@[k] == parts[k]
                &&& final(db).participants@[i].data == parts[i].data
                &&& final(db).participants@[i].last_heard == now
            } else {
                final(db).participants@ == parts
            }
        }),
{
    db.update_lease_duration(msg, now);
}

/// Echo of a fresh SPDP record into our own SPDP writer: the database
/// learns the record, and if anything changed the data path must publish
/// new discovery samples.
pub fn update_spdp_participant_writer(
    db: &mut DiscoveryDB,
    data: &SpdpDiscoveredParticipantData,
    now: Timestamp,
) -> (r: (bool, Vec<DiscoveryNotificationType>))
    requires
        old(db).wf(),
    ensures
        final(db).wf(),
        *final(db) == (DiscoveryDB { participants: final(db).participants, ..*old(db) }),
        spec_has_participant(final(db).participants@, data.participant_guid.prefix),
        ({
            let parts = old(db).participants@;
            let prefix = data.participant_guid.prefix;
            let changed = if spec_has_participant(parts, prefix) {
                parts[spec_participant_index(parts, prefix)].data@ != data@
            } else {
                true
            };
            &&& r.0 == changed
            &&& changed ==> r.1@ == seq![
                (DiscoveryNotificationType::WritersInfoUpdated {
                    needs_new_cache_change: true,
                }),
            ]
            &&& !changed ==> r.1@.len() == 0
        }),
{
    let updated = db.update_participant(data, now);
    if updated {
        let mut notifications: Vec<DiscoveryNotificationType> = Vec::new();
        notifications.push(
            DiscoveryNotificationType::WritersInfoUpdated { needs_new_cache_change: true },
        );
        proof {
            assert(notifications@ =~= seq![
                (DiscoveryNotificationType::WritersInfoUpdated {
                    needs_new_cache_change: true,
                }),
            ]);
        }
        (true, notifications)
    } else {
        (false, Vec::new())
    }
}

/// Reads and clears the reader-table publish flag.
pub fn read_readers_info(db: &mut DiscoveryDB) -> (r: bool)
    ensures
        r == old(db).readers_updated,
        *final(db) == (DiscoveryDB { readers_updated: false, ..*old(db) }),
{
    let r = db.is_readers_updated();
    if r {
        db.readers_updated(false);
    }
    r
}

/// Reads and clears the writer-table publish flag.
pub fn read_writers_info(db: &mut DiscoveryDB) -> (r: bool)
    ensures
        r == old(db).writers_updated,
        *final(db) == (DiscoveryDB { writers_updated: false, ..*old(db) }),
{
    let r = db.is_writers_updated();
    if r {
        db.writers_updated(false);
    }
    r
}

/// This writer's automatic lease, if it declares one, is more than three
/// times the span since the last automatic assertion.
pub open spec fn spec_auto_lease_exceeded(
    w: DiscoveredWriterData,
    last: Timestamp,
    now: Timestamp,
) -> bool {
    match w.qos.liveliness {
        Some(Liveliness::Automatic { lease_duration }) => now.ticks - last.ticks
            > lease_duration.ticks / 3,
        _ => false,
    }
}

/// An automatic liveliness assertion is owed: some automatic lease among
/// the local writers has a third of it already elapsed. Over the least
/// such lease this is exactly the pacing rule, since a third of the least
/// lease is the least third.
pub open spec fn spec_automatic_liveliness_due(
    writers: Seq<DiscoveredWriterData>,
    last: Timestamp,
    now: Timestamp,
) -> bool {
    exists|i: int| 0 <= i < writers.len() && spec_auto_lease_exceeded(writers[i], last, now)
}

/// As [`spec_auto_lease_exceeded`], for a manual-by-participant lease.
pub open spec fn spec_manual_lease_exceeded(
    w: DiscoveredWriterData,
    last: Timestamp,
    now: Timestamp,
) -> bool {
    match w.qos.liveliness {
        Some(Liveliness::ManualByParticipant { lease_duration }) => now.ticks - last.ticks
            > lease_duration.ticks / 3,
        _ => false,
    }
}

/// A manual-by-participant assertion is owed.
pub open spec fn spec_manual_liveliness_due(
    writers: Seq<DiscoveredWriterData>,
    last: Timestamp,
    now: Timestamp,
) -> bool {
    exists|i: int| 0 <= i < writers.len() && spec_manual_lease_exceeded(writers[i], last, now)
}

/// An automatic liveliness assertion from this participant: right kind,
/// right prefix, empty body.
pub open spec fn spec_is_auto_liveliness_message(
    m: ParticipantMessageData,
    prefix: GuidPrefix,
) -> bool {
    &&& m.guid == prefix
    &&& m.kind
        == ParticipantMessageDataKind::PARTICIPANT_MESSAGE_DATA_KIND_AUTOMATIC_LIVELINESS_UPDATE
    &&& m.data@.len() == 0
}

/// A manual-by-participant assertion from this participant.
pub open spec fn spec_is_manual_liveliness_message(
    m: ParticipantMessageData,
    prefix: GuidPrefix,
) -> bool {
    &&& m.guid == prefix
    &&& m.kind
        == ParticipantMessageDataKind::PARTICIPANT_MESSAGE_DATA_KIND_MANUAL_LIVELINESS_UPDATE
    &&& m.data@.len() == 0
}

/// The least automatic lease declared by any local writer, in ticks.
pub open spec fn spec_min_automatic_lease(ws: Seq<DiscoveredWriterData>) -> Option<int>
    decreases ws.len(),
{
    if ws.len() == 0 {
        None
    } else {
        let rest = spec_min_automatic_lease(ws.drop_last());
        match ws.last().qos.liveliness {
            Some(Liveliness::Automatic { lease_duration }) => match rest {
                Some(m) => Some(
                    if lease_duration.ticks < m {
                        lease_duration.ticks as int
                    } else {
                        m
                    },
                ),
                None => Some(lease_duration.ticks as int),
            },
            _ => rest,
        }
    }
}

/// The least manual-by-participant lease declared by any local writer.
pub open spec fn spec_min_manual_lease(ws: Seq<DiscoveredWriterData>) -> Option<int>
    decreases ws.len(),
{
    if ws.len() == 0 {
        None
    } else {
        let rest = spec_min_manual_lease(ws.drop_last());
        match ws.last().qos.liveliness {
            Some(Liveliness::ManualByParticipant { lease_duration }) => match rest {
                Some(m) => Some(
                    if lease_duration.ticks < m {
                        lease_duration.ticks as int
                    } else {
                        m
                    },
                ),
                None => Some(lease_duration.ticks as int),
            },
            _ => rest,
        }
    }
}

/// Law: an automatic assertion is owed exactly when more than a third of
/// the least automatic lease has elapsed since the last one (and only
/// when some writer declares automatic liveliness at all). Testing each
/// lease on its own comes to the same thing, because a third of the
/// least lease is the least of the thirds.
pub proof fn lemma_automatic_pacing_uses_min_lease(
    ws: Seq<DiscoveredWriterData>,
    last: Timestamp,
    now: Timestamp,
)
    ensures
        spec_automatic_liveliness_due(ws, last, now) <==> match spec_min_automatic_lease(ws) {
            Some(m) => now.ticks - last.ticks > m / 3,
            None => false,
        },
    decreases ws.len(),
{
    if ws.len() == 0 {
    } else {
        let rest = ws.drop_last();
        lemma_automatic_pacing_uses_min_lease(rest, last, now);
        assert forall|i: int|
            0 <= i < rest.len() implies rest[i] == ws[i] by {}
        if spec_automatic_liveliness_due(rest, last, now) {
            let i = choose|i: int|
                0 <= i < rest.len() && spec_auto_lease_exceeded(rest[i], last, now);
            assert(spec_auto_lease_exceeded(ws[i], last, now));
        }
        if spec_automatic_liveliness_due(ws, last, now) {
            let i = choose|i: int| 0 <= i < ws.len() && spec_auto_lease_exceeded(ws[i], last, now);
            if i < ws.len() - 1 {
                assert(spec_auto_lease_exceeded(rest[i], last, now));
                assert(spec_automatic_liveliness_due(rest, last, now));
            } else {
                assert(ws[i] == ws.last());
            }
        }
        match spec_min_automatic_lease(rest) {
            Some(m) => {
                match ws.last().qos.liveliness {
                    Some(Liveliness::Automatic { lease_duration }) => {
                        let l = lease_duration.ticks as int;
                        vstd::arithmetic::div_mod::lemma_div_is_ordered(
                            if l < m {
                                l
                            } else {
                                m
                            },
                            if l < m {
                                m
                            } else {
                                l
                            },
                            3,
                        );
                    },
                    _ => {},
                }
            },
            None => {},
        }
    }
}

/// Law: the manual-by-participant pacing rule, stated over the least
/// manual lease, as the automatic one is.
pub proof fn lemma_manual_pacing_uses_min_lease(
    ws: Seq<DiscoveredWriterData>,
    last: Timestamp,
    now: Timestamp,
)
    ensures
        spec_manual_liveliness_due(ws, last, now) <==> match spec_min_manual_lease(ws) {
            Some(m) => now.ticks - last.ticks > m / 3,
            None => false,
        },
    decreases ws.len(),
{
    if ws.len() == 0 {
    } else {
        let rest = ws.drop_last();
        lemma_manual_pacing_uses_min_lease(rest, last, now);
        assert forall|i: int|
            0 <= i < rest.len() implies rest[i] == ws[i] by {}
        if spec_manual_liveliness_due(rest, last, now) {
            let i = choose|i: int|
                0 <= i < rest.len() && spec_manual_lease_exceeded(rest[i], last, now);
            assert(spec_manual_lease_exceeded(ws[i], last, now));
        }
        if spec_manual_liveliness_due(ws, last, now) {
            let i = choose|i: int|
                0 <= i < ws.len() && spec_manual_lease_exceeded(ws[i], last, now);
            if i < ws.len() - 1 {
                assert(spec_manual_lease_exceeded(rest[i], last, now));
                assert(spec_manual_liveliness_due(rest, last, now));
            } else {
                assert(ws[i] == ws.last());
            }
        }
        match spec_min_manual_lease(rest) {
            Some(m) => {
                match ws.last().qos.liveliness {
                    Some(Liveliness::ManualByParticipant { lease_duration }) => {
                        let l = lease_duration.ticks as int;
                        vstd::arithmetic::div_mod::lemma_div_is_ordered(
                            if l < m {
                                l
                            } else {
                                m
                            },
                            if l < m {
                                m
                            } else {
                                l
                            },
                            3,
                        );
                    },
                    _ => {},
                }
            },
            None => {},
        }
    }
}

fn automatic_liveliness_due(
    writers: &Vec<DiscoveredWriterData>,
    last: Timestamp,
    now: Timestamp,
) -> (r: bool)
    requires
        now.ticks >= last.ticks,
    ensures
        r == spec_automatic_liveliness_due(writers@, last, now),
{
    let elapsed: u64 = now.ticks - last.ticks;
    let mut i: usize = 0;
    while i < writers.len()
        invariant
            now.ticks >= last.ticks,
            elapsed == now.ticks - last.ticks,
            i <= writers.len(),
            forall|k: int| 0 <= k < i ==> !spec_auto_lease_exceeded(writers@[k], last, now),
        decreases writers.len() - i,
    {
        let entry = vstd::slice::slice_index_get(writers.as_slice(), i);
        match entry.qos.liveliness {
            Some(Liveliness::Automatic { lease_duration }) => {
                if elapsed > lease_duration.ticks / 3 {
                    proof {
                        assert(spec_auto_lease_exceeded(writers@[i as int], last, now));
                    }
                    return true;
                }
            },
            _ => (),
        }
        i = i + 1;
    }
    false
}

fn manual_liveliness_due(
    writers: &Vec<DiscoveredWriterData>,
    last: Timestamp,
    now: Timestamp,
) -> (r: bool)
    requires
        now.ticks >= last.ticks,
    ensures
        r == spec_manual_liveliness_due(writers@, last, now),
{
    let elapsed: u64 = now.ticks - last.ticks;
    let mut i: usize = 0;
    while i < writers.len()
        invariant
            now.ticks >= last.ticks,
            elapsed == now.ticks - last.ticks,
            i <= writers.len(),
            forall|k: int| 0 <= k < i ==> !spec_manual_lease_exceeded(writers@[k], last, now),
        decreases writers.len() - i,
    {
        let entry = vstd::slice::slice_index_get(writers.as_slice(), i);
        match entry.qos.liveliness {
            Some(Liveliness::ManualByParticipant { lease_duration }) => {
                if elapsed > lease_duration.ticks / 3 {
                    proof {
                        assert(spec_manual_lease_exceeded(writers@[i as int], last, now));
                    }
                    return true;
                }
            },
            _ => (),
        }
        i = i + 1;
    }
    false
}

/// The liveliness pacing rule: an assertion of each kind goes out exactly
/// when more than a third of the least declared lease of that kind has
/// elapsed since the last one. An automatic assertion restamps its clock;
/// a manual one is restamped only by an explicit refresh command.
pub fn write_participant_message(
    db: &DiscoveryDB,
    liveliness_state: &mut LivelinessState,
    participant_prefix: GuidPrefix,
    now: Timestamp,
) -> (msgs: Vec<ParticipantMessageData>)
    requires
        now.ticks >= old(liveliness_state).last_auto_update.ticks,
        now.ticks >= old(liveliness_state).last_manual_participant_update.ticks,
    ensures
        ({
            let auto_due = spec_automatic_liveliness_due(
                db.local_topic_writers@,
                old(liveliness_state).last_auto_update,
                now,
            );
            let manual_due = spec_manual_liveliness_due(
                db.local_topic_writers@,
                old(liveliness_state).last_manual_participant_update,
                now,
            );
            &&& final(liveliness_state).last_auto_update == (if auto_due {
                now
            } else {
                old(liveliness_state).last_auto_update
            })
            &&& final(liveliness_state).last_manual_participant_update == old(liveliness_state).last_manual_participant_update
            &&& msgs@.len() == (if auto_due {
                1int
            } else {
                0int
            }) + (if manual_due {
                1int
            } else {
                0int
            })
            &&& auto_due ==> spec_is_auto_liveliness_message(msgs@[0], participant_prefix)
            &&& manual_due ==> spec_is_manual_liveliness_message(
                msgs@[msgs@.len() - 1],
                participant_prefix,
            )
        }),
{
    let mut msgs: Vec<ParticipantMessageData> = Vec::new();
    let auto_due = automatic_liveliness_due(
        &db.local_topic_writers,
        liveliness_state.last_auto_update,
        now,
    );
    if auto_due {
        msgs.push(
            ParticipantMessageData {
                guid: participant_prefix,
                kind:
                    ParticipantMessageDataKind::PARTICIPANT_MESSAGE_DATA_KIND_AUTOMATIC_LIVELINESS_UPDATE,
                data: Vec::new(),
            },
        );
        liveliness_state.last_auto_update = now;
    }
    let manual_due = manual_liveliness_due(
        &db.local_topic_writers,
        liveliness_state.last_manual_participant_update,
        now,
    );
    if manual_due {
        msgs.push(
            ParticipantMessageData {
                guid: participant_prefix,
                kind:
                    ParticipantMessageDataKind::PARTICIPANT_MESSAGE_DATA_KIND_MANUAL_LIVELINESS_UPDATE,
                data: Vec::new(),
            },
        );
    }
    msgs
}

/// The reader records to advertise: every local reader except the five
/// built-in discovery readers, which must never be published as if they
/// were user endpoints.
pub fn write_readers_info(db: &DiscoveryDB) -> (r: Vec<DiscoveredReaderData>)
    ensures
        forall|k: int|
            0 <= k < r@.len() ==> !spec_is_builtin_reader(
                (#[trigger] r@[k]).reader_guid.entity_id,
            ),
        r@.map_values(|d: DiscoveredReaderData| d@) == db.local_topic_readers@.map_values(
            |d: DiscoveredReaderData| d@,
        ).filter((|v: DiscoveredReaderDataView| !spec_is_builtin_reader(v.reader_guid.entity_id))),
{
    let ghost mapped = db.local_topic_readers@.map_values(|d: DiscoveredReaderData| d@);
    let ghost predv = (|v: DiscoveredReaderDataView| !spec_is_builtin_reader(
        v.reader_guid.entity_id,
    ));
    let mut r: Vec<DiscoveredReaderData> = Vec::new();
    let mut i: usize = 0;
    proof {
        reveal(Seq::filter);
        assert(r@.map_values(|d: DiscoveredReaderData| d@) =~= mapped.subrange(0, 0).filter(
            predv,
        ));
    }
    while i < db.local_topic_readers.len()
        invariant
            i <= db.local_topic_readers.len(),
            mapped == db.local_topic_readers@.map_values(|d: DiscoveredReaderData| d@),
            predv == (|v: DiscoveredReaderDataView| !spec_is_builtin_reader(
                v.reader_guid.entity_id,
            )),
            r@.map_values(|d: DiscoveredReaderData| d@) == mapped.subrange(0, i as int).filter(
                predv,
            ),
            forall|k: int|
                0 <= k < r@.len() ==> !spec_is_builtin_reader(
                    (#[trigger] r@[k]).reader_guid.entity_id,
                ),
        decreases db.local_topic_readers.len() - i,
    {
        proof {
            assert(mapped[i as int] == db.local_topic_readers@[i as int]@);
            crate::discovery_db::lemma_filter_step(mapped, predv, i as int);
        }
        let entry = vstd::slice::slice_index_get(db.local_topic_readers.as_slice(), i);
        let keep = !entry.reader_guid.entity_id.is_builtin_reader();
        if keep {
            let ghost pre_views = r@.map_values(|d: DiscoveredReaderData| d@);
            let copied = entry.clone();
            proof {
                assert(copied@ == mapped[i as int]);
            }
            r.push(copied);
            proof {
                assert(r@.map_values(|d: DiscoveredReaderData| d@) =~= pre_views.push(
                    mapped[i as int],
                ));
            }
        }
        i = i + 1;
    }
    proof {
        assert(mapped.subrange(0, mapped.len() as int) =~= mapped);
    }
    r
}

/// The writer records to advertise: every local writer except the five
/// built-in discovery writers.
pub fn write_writers_info(db: &DiscoveryDB) -> (r: Vec<DiscoveredWriterData>)
    ensures
        forall|k: int|
            0 <= k < r@.len() ==> !spec_is_builtin_writer(
                (#[trigger] r@[k]).writer_guid.entity_id,
            ),
        r@.map_values(|d: DiscoveredWriterData| d@) == db.local_topic_writers@.map_values(
            |d: DiscoveredWriterData| d@,
        ).filter((|v: DiscoveredWriterDataView| !spec_is_builtin_writer(v.writer_guid.entity_id))),
{
    let ghost mapped = db.local_topic_writers@.map_values(|d: DiscoveredWriterData| d@);
    let ghost predv = (|v: DiscoveredWriterDataView| !spec_is_builtin_writer(
        v.writer_guid.entity_id,
    ));
    let mut r: Vec<DiscoveredWriterData> = Vec::new();
    let mut i: usize = 0;
    proof {
        reveal(Seq::filter);
        assert(r@.map_values(|d: DiscoveredWriterData| d@) =~= mapped.subrange(0, 0).filter(
            predv,
        ));
    }
    while i < db.local_topic_writers.len()
        invariant
            i <= db.local_topic_writers.len(),
            mapped == db.local_topic_writers@.map_values(|d: DiscoveredWriterData| d@),
            predv == (|v: DiscoveredWriterDataView| !spec_is_builtin_writer(
                v.writer_guid.entity_id,
            )),
            r@.map_values(|d: DiscoveredWriterData| d@) == mapped.subrange(0, i as int).filter(
                predv,
            ),
            forall|k: int|
                0 <= k < r@.len() ==> !spec_is_builtin_writer(
                    (#[trigger] r@[k]).writer_guid.entity_id,
                ),
        decreases db.local_topic_writers.len() - i,
    {
        proof {
            assert(mapped[i as int] == db.local_topic_writers@[i as int]@);
            crate::discovery_db::lemma_filter_step(mapped, predv, i as int);
        }
        let entry = vstd::slice::slice_index_get(db.local_topic_writers.as_slice(), i);
        let keep = !entry.writer_guid.entity_id.is_builtin_writer();
        if keep {
            let ghost pre_views = r@.map_values(|d: DiscoveredWriterData| d@);
            let copied = entry.clone();
            proof {
                assert(copied@ == mapped[i as int]);
            }
            r.push(copied);
            proof {
                assert(r@.map_values(|d: DiscoveredWriterData| d@) =~= pre_views.push(
                    mapped[i as int],
                ));
            }
        }
        i = i + 1;
    }
    proof {
        assert(mapped.subrange(0, mapped.len() as int) =~= mapped);
    }
    r
}

/// The topic records to advertise on the topic-info timer: all of them.
pub fn write_topic_info(db: &DiscoveryDB) -> (r: &Vec<DiscoveredTopicData>)
    ensures
        r@ == db.topics@,
{
    db.get_all_topics()
}

/// What a clean shutdown disposes, in order: every local reader, every
/// local writer, and finally the participant itself on the SPDP topic.
pub fn stop_discovery_disposals(db: &DiscoveryDB) -> (r: (Vec<GUID>, Vec<GUID>))
    ensures
        r.0@ == db.local_topic_readers@.map_values(|d: DiscoveredReaderData| d.reader_guid),
        r.1@ == db.local_topic_writers@.map_values(|d: DiscoveredWriterData| d.writer_guid),
{
    let mut readers: Vec<GUID> = Vec::new();
    let mut i: usize = 0;
    while i < db.local_topic_readers.len()
        invariant
            i <= db.local_topic_readers.len(),
            readers@ == db.local_topic_readers@.subrange(0, i as int).map_values(
                |d: DiscoveredReaderData| d.reader_guid,
            ),
        decreases db.local_topic_readers.len() - i,
    {
        let entry = vstd::slice::slice_index_get(db.local_topic_readers.as_slice(), i);
        readers.push(entry.reader_guid);
        proof {
            assert(readers@ =~= db.local_topic_readers@.subrange(0, i + 1).map_values(
                |d: DiscoveredReaderData| d.reader_guid,
            ));
        }
        i = i + 1;
    }
    let mut writers: Vec<GUID> = Vec::new();
    let mut k: usize = 0;
    while k < db.local_topic_writers.len()
        invariant
            k <= db.local_topic_writers.len(),
            writers@ == db.local_topic_writers@.subrange(0, k as int).map_values(
                |d: DiscoveredWriterData| d.writer_guid,
            ),
        decreases db.local_topic_writers.len() - k,
    {
        let entry = vstd::slice::slice_index_get(db.local_topic_writers.as_slice(), k);
        writers.push(entry.writer_guid);
        proof {
            assert(writers@ =~= db.local_topic_writers@.subrange(0, k + 1).map_values(
                |d: DiscoveredWriterData| d.writer_guid,
            ));
        }
        k = k + 1;
    }
    proof {
        assert(db.local_topic_readers@.subrange(0, db.local_topic_readers@.len() as int)
            =~= db.local_topic_readers@);
        assert(db.local_topic_writers@.subrange(0, db.local_topic_writers@.len() as int)
            =~= db.local_topic_writers@);
    }
    (readers, writers)
}

/// A remove-local-reader command: the discovery loop never disposes the
/// built-in writer that publishes reader records; any other GUID is
/// dropped from the table and disposed on the wire.
pub fn handle_remove_local_reader(
    db: &mut DiscoveryDB,
    guid: GUID,
    subscriptions_writer_guid: GUID,
) -> (dispose: bool)
    requires
        old(db).wf(),
    ensures
        final(db).wf(),
        dispose == (guid != subscriptions_writer_guid),
        !dispose ==> *final(db) == *old(db),
        dispose ==> {
            &&& *final(db) == (DiscoveryDB {
                local_topic_readers: final(db).local_topic_readers,
                ..*old(db)
            })
            &&& !spec_has_reader(final(db).local_topic_readers@, guid)
            &&& spec_has_reader(old(db).local_topic_readers@, guid) ==> final(db).local_topic_readers@ == old(db).local_topic_readers@.remove(
                spec_reader_index(old(db).local_topic_readers@, guid),
            )
            &&& !spec_has_reader(old(db).local_topic_readers@, guid) ==> final(db).local_topic_readers@ == old(db).local_topic_readers@
        },
{
    if guid == subscriptions_writer_guid {
        return false;
    }
    db.remove_local_topic_reader(guid);
    true
}

/// A remove-local-writer command, symmetric to the reader one.
pub fn handle_remove_local_writer(
    db: &mut DiscoveryDB,
    guid: GUID,
    publications_writer_guid: GUID,
) -> (dispose: bool)
    requires
        old(db).wf(),
    ensures
        final(db).wf(),
        dispose == (guid != publications_writer_guid),
        !dispose ==> *final(db) == *old(db),
        dispose ==> {
            &&& *final(db) == (DiscoveryDB {
                local_topic_writers: final(db).local_topic_writers,
                ..*old(db)
            })
            &&& !spec_has_writer(final(db).local_topic_writers@, guid)
            &&& spec_has_writer(old(db).local_topic_writers@, guid) ==> final(db).local_topic_writers@ == old(db).local_topic_writers@.remove(
                spec_writer_index(old(db).local_topic_writers@, guid),
            )
            &&& !spec_has_writer(old(db).local_topic_writers@, guid) ==> final(db).local_topic_writers@ == old(db).local_topic_writers@
        },
{
    if guid == publications_writer_guid {
        return false;
    }
    db.remove_local_topic_writer(guid);
    true
}

/// The per-remote-endpoint match state.
#[derive(Clone, Copy, PartialEq, Eq, Structural, Debug)]
pub enum EndpointState {
    Unknown,
    Matched,
    Disposed,
    Expired,
}

/// What can happen to a remote endpoint's match state.
#[derive(Clone, Copy, PartialEq, Eq, Structural, Debug)]
pub enum EndpointEvent {
    Discovered { compatible: bool },
    Dispose,
    LeaseTimeout,
}

/// The endpoint state machine: a compatible discovery (or rediscovery)
/// matches; an incompatible one is recorded but changes no state; a
/// dispose or a lease timeout only takes down a matched endpoint.
pub open spec fn spec_endpoint_transition(s: EndpointState, e: EndpointEvent) -> EndpointState {
    match e {
        EndpointEvent::Discovered { compatible } => if compatible {
            EndpointState::Matched
        } else {
            s
        },
        EndpointEvent::Dispose => if s is Matched {
            EndpointState::Disposed
        } else {
            s
        },
        EndpointEvent::LeaseTimeout => if s is Matched {
            EndpointState::Expired
        } else {
            s
        },
    }
}

pub fn endpoint_transition(state: EndpointState, event: EndpointEvent) -> (next: EndpointState)
    ensures
        next == spec_endpoint_transition(state, event),
{
    match event {
        EndpointEvent::Discovered { compatible } => {
            if compatible {
                EndpointState::Matched
            } else {
                state
            }
        },
        EndpointEvent::Dispose => {
            if state == EndpointState::Matched {
                EndpointState::Disposed
            } else {
                state
            }
        },
        EndpointEvent::LeaseTimeout => {
            if state == EndpointState::Matched {
                EndpointState::Expired
            } else {
                state
            }
        },
    }
}

} // verus!
