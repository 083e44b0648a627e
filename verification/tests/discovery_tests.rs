use rustdds::discovery::{
    endpoint_transition, handle_participant_reader, handle_remove_local_writer,
    handle_subscription_reader, handle_topic_reader, initialize_participant, read_readers_info,
    read_writers_info, spdp_publish_lease_duration, stop_discovery_disposals,
    update_spdp_participant_writer, write_participant_message, write_readers_info,
    write_writers_info, DiscoveryNotificationType, EndpointEvent, EndpointState, LivelinessState,
    SEND_PARTICIPANT_INFO_PERIOD_NS,
};
use rustdds::discovery_db::{
    DiscoveredReaderData, DiscoveredTopicData, DiscoveredWriterData, DiscoveryDB,
    ParticipantMessageData, ParticipantMessageDataKind, SpdpDiscoveredParticipantData,
};
use rustdds::guid::{
    EntityId, GuidPrefix, GUID, ENTITYID_SEDP_BUILTIN_PUBLICATIONS_WRITER,
    ENTITYID_SPDP_BUILTIN_PARTICIPANT_READER,
};
use rustdds::network::{
    get_spdp_well_known_multicast_port, get_spdp_well_known_unicast_port,
    get_user_traffic_unicast_port,
};
use rustdds::qos::{Liveliness, QosPolicies, QosPolicyBuilder};
use rustdds::time::{Duration, Timestamp};

fn guid(prefix: u32, entity: u32) -> GUID {
    GUID::new(GuidPrefix::new(prefix, 0, 0), EntityId::new(entity))
}

fn spdp_data(prefix: u32, lease_secs: u32) -> SpdpDiscoveredParticipantData {
    SpdpDiscoveredParticipantData {
        participant_guid: guid(prefix, 0x000001c1),
        protocol_version: 0x0202,
        vendor_id: 0x0112,
        metatraffic_unicast_locators: vec![],
        metatraffic_multicast_locators: vec![],
        lease_duration: Duration::from_secs(lease_secs),
    }
}

fn reader_record(prefix: u32, entity: u32) -> DiscoveredReaderData {
    DiscoveredReaderData {
        reader_guid: guid(prefix, entity),
        topic_name: "Square".to_string(),
        data_type_name: "ShapeType".to_string(),
        qos: QosPolicies::none(),
        unicast_locators: vec![],
        multicast_locators: vec![],
    }
}

fn writer_record(prefix: u32, entity: u32, qos: QosPolicies) -> DiscoveredWriterData {
    DiscoveredWriterData {
        writer_guid: guid(prefix, entity),
        topic_name: "Square".to_string(),
        data_type_name: "ShapeType".to_string(),
        qos,
        unicast_locators: vec![],
        multicast_locators: vec![],
    }
}

fn secs(s: u64) -> Timestamp {
    Timestamp::new(s * 1_000_000_000)
}

#[test]
fn well_known_ports() {
    assert_eq!(get_spdp_well_known_multicast_port(0), 7400);
    assert_eq!(get_spdp_well_known_multicast_port(1), 7650);
    assert_eq!(get_spdp_well_known_unicast_port(0, 1), 7412);
    assert_eq!(get_user_traffic_unicast_port(0, 0), 7411);
}

#[test]
fn advertised_lease_is_three_periods() {
    let lease = spdp_publish_lease_duration();
    assert_eq!(lease.ticks, 3 * SEND_PARTICIPANT_INFO_PERIOD_NS);
    assert_eq!(lease, Duration::from_secs(6));
}

#[test]
fn startup_seeds_spdp_locator() {
    let mut db = DiscoveryDB::new();
    let n = initialize_participant(&mut db, 0);
    assert_eq!(
        n,
        DiscoveryNotificationType::WritersInfoUpdated { needs_new_cache_change: true }
    );
    let locator = db.participant_reader_locator.unwrap();
    assert_eq!(locator.port, 7400);
}

#[test]
fn participant_discovery_and_disposal() {
    let mut db = DiscoveryDB::new();
    let data = spdp_data(0xb, 6);

    // a fresh participant is entered and echoed back
    let (echo, notifications) = handle_participant_reader(&mut db, Ok(&data), secs(1));
    assert!(echo.is_some());
    assert_eq!(notifications.len(), 2);
    assert_eq!(
        notifications[0],
        DiscoveryNotificationType::WritersInfoUpdated { needs_new_cache_change: false }
    );
    assert_eq!(notifications[1], DiscoveryNotificationType::ReadersInfoUpdated);
    assert_eq!(db.participants.len(), 1);
    assert_eq!(db.participants[0].last_heard, secs(1));

    // the same record again only refreshes the stamp
    let (echo, notifications) = handle_participant_reader(&mut db, Ok(&data), secs(2));
    assert!(echo.is_none());
    assert!(notifications.is_empty());
    assert_eq!(db.participants.len(), 1);
    assert_eq!(db.participants[0].last_heard, secs(2));

    // a disposal removes it
    let (echo, notifications) = handle_participant_reader(&mut db, Err(guid(0xb, 0)), secs(3));
    assert!(echo.is_none());
    assert_eq!(notifications.len(), 2);
    assert!(db.participants.is_empty());
}

#[test]
fn lease_timeout_expires_participant_and_endpoints() {
    let mut db = DiscoveryDB::new();
    // two participants; only one keeps asserting itself
    let (_, _) = handle_participant_reader(&mut db, Ok(&spdp_data(0xa, 6)), secs(10));
    let (_, _) = handle_participant_reader(&mut db, Ok(&spdp_data(0xb, 6)), secs(10));
    handle_subscription_reader(&mut db, Ok(&reader_record(0xb, 0x107)));
    let _ = db.update_publication(&writer_record(0xb, 0x103, QosPolicies::none()));
    let _ = db.update_publication(&writer_record(0xa, 0x203, QosPolicies::none()));
    let (_, _) = handle_participant_reader(&mut db, Ok(&spdp_data(0xa, 6)), secs(14));

    // at 17 s participant 0xb (last heard 10 s, lease 6 s) is overdue
    let (readers_removed, writers_removed) = db.participant_cleanup(secs(17));
    assert!(readers_removed);
    assert!(writers_removed);
    assert_eq!(db.participants.len(), 1);
    assert_eq!(db.participants[0].data.participant_guid.prefix, GuidPrefix::new(0xa, 0, 0));
    assert!(db.external_topic_readers.is_empty());
    assert_eq!(db.external_topic_writers.len(), 1);
    assert_eq!(db.external_topic_writers[0].writer_guid, guid(0xa, 0x203));

    // nothing further to expire
    let (readers_removed, writers_removed) = db.participant_cleanup(secs(18));
    assert!(!readers_removed);
    assert!(!writers_removed);
}

#[test]
fn liveliness_refresh_keeps_participant_alive() {
    let mut db = DiscoveryDB::new();
    let (_, _) = handle_participant_reader(&mut db, Ok(&spdp_data(0xc, 6)), secs(10));
    let msg = ParticipantMessageData {
        guid: GuidPrefix::new(0xc, 0, 0),
        kind: ParticipantMessageDataKind::PARTICIPANT_MESSAGE_DATA_KIND_AUTOMATIC_LIVELINESS_UPDATE,
        data: vec![],
    };
    db.update_lease_duration(&msg, secs(15));
    let (_, _) = db.participant_cleanup(secs(17));
    assert_eq!(db.participants.len(), 1);
}

#[test]
fn subscription_sample_reproduces_db_record() {
    let mut db = DiscoveryDB::new();
    let d = reader_record(0xd, 0x42);
    let notifications = handle_subscription_reader(&mut db, Ok(&d));
    assert_eq!(notifications.len(), 1);
    assert_eq!(
        notifications[0],
        DiscoveryNotificationType::WritersInfoUpdated { needs_new_cache_change: true }
    );

    // the database now holds an equivalent reader record ...
    assert_eq!(db.external_topic_readers.len(), 1);
    let held = &db.external_topic_readers[0];
    assert_eq!(held.reader_guid, d.reader_guid);
    assert_eq!(held.topic_name, d.topic_name);
    assert_eq!(held.data_type_name, d.data_type_name);
    assert_eq!(held.qos, d.qos);
    assert_eq!(held.unicast_locators, d.unicast_locators);
    assert_eq!(held.multicast_locators, d.multicast_locators);

    // ... and an implied topic record
    assert_eq!(db.topics.len(), 1);
    assert_eq!(db.topics[0].topic_name, "Square");
    assert_eq!(db.topics[0].data_type_name, "ShapeType");

    // a disposal takes the reader out again
    let notifications = handle_subscription_reader(&mut db, Err(d.reader_guid));
    assert_eq!(notifications.len(), 1);
    assert!(db.external_topic_readers.is_empty());
}

#[test]
fn topic_sample_notifies_only_on_change() {
    let mut db = DiscoveryDB::new();
    let t = DiscoveredTopicData {
        topic_name: "Square".to_string(),
        data_type_name: "ShapeType".to_string(),
        qos: QosPolicies::none(),
    };
    let notifications = handle_topic_reader(&mut db, &t);
    assert_eq!(notifications.len(), 1);
    assert_eq!(notifications[0], DiscoveryNotificationType::TopicsInfoUpdated);
    let notifications = handle_topic_reader(&mut db, &t);
    assert!(notifications.is_empty());
}

#[test]
fn spdp_echo_notifies_with_fresh_cache_change() {
    let mut db = DiscoveryDB::new();
    let data = spdp_data(0xe, 6);
    let (changed, notifications) = update_spdp_participant_writer(&mut db, &data, secs(1));
    assert!(changed);
    assert_eq!(notifications.len(), 1);
    assert_eq!(
        notifications[0],
        DiscoveryNotificationType::WritersInfoUpdated { needs_new_cache_change: true }
    );
    let (changed, notifications) = update_spdp_participant_writer(&mut db, &data, secs(2));
    assert!(!changed);
    assert!(notifications.is_empty());
}

#[test]
fn built_in_endpoints_are_never_advertised() {
    let mut db = DiscoveryDB::new();
    let _ = db.update_local_topic_reader(&reader_record(1, ENTITYID_SPDP_BUILTIN_PARTICIPANT_READER));
    let _ = db.update_local_topic_reader(&reader_record(1, 0x42));
    let _ = db.update_local_topic_writer(&writer_record(
        1,
        ENTITYID_SEDP_BUILTIN_PUBLICATIONS_WRITER,
        QosPolicies::none(),
    ));
    let _ = db.update_local_topic_writer(&writer_record(1, 0x43, QosPolicies::none()));

    let readers = write_readers_info(&db);
    assert_eq!(readers.len(), 1);
    assert_eq!(readers[0].reader_guid, guid(1, 0x42));

    let writers = write_writers_info(&db);
    assert_eq!(writers.len(), 1);
    assert_eq!(writers[0].writer_guid, guid(1, 0x43));
}

#[test]
fn publish_flags_debounce() {
    let mut db = DiscoveryDB::new();
    assert!(!read_readers_info(&mut db));
    let _ = db.update_local_topic_reader(&reader_record(1, 0x42));
    assert!(read_readers_info(&mut db));
    assert!(!read_readers_info(&mut db));

    assert!(!read_writers_info(&mut db));
    let _ = db.update_local_topic_writer(&writer_record(1, 0x43, QosPolicies::none()));
    assert!(read_writers_info(&mut db));
    assert!(!read_writers_info(&mut db));
}

#[test]
fn automatic_liveliness_pacing() {
    let mut db = DiscoveryDB::new();
    let auto_qos = QosPolicyBuilder::new()
        .liveliness(Liveliness::Automatic { lease_duration: Duration::from_secs(3) })
        .build();
    let _ = db.update_local_topic_writer(&writer_record(1, 0x43, auto_qos));
    let prefix = GuidPrefix::new(1, 0, 0);

    // within a third of the lease: nothing is owed
    let mut state = LivelinessState::new(secs(100));
    let msgs = write_participant_message(&db, &mut state, prefix, secs(101));
    assert!(msgs.is_empty());
    assert_eq!(state.last_auto_update, secs(100));

    // past a third of the lease: one automatic assertion, and the clock
    // restamps
    let msgs = write_participant_message(&db, &mut state, prefix, secs(102));
    assert_eq!(msgs.len(), 1);
    assert_eq!(msgs[0].guid, prefix);
    assert_eq!(
        msgs[0].kind,
        ParticipantMessageDataKind::PARTICIPANT_MESSAGE_DATA_KIND_AUTOMATIC_LIVELINESS_UPDATE
    );
    assert!(msgs[0].data.is_empty());
    assert_eq!(state.last_auto_update, secs(102));

    // immediately after the restamp nothing is owed again
    let msgs = write_participant_message(&db, &mut state, prefix, secs(102));
    assert!(msgs.is_empty());
}

#[test]
fn manual_liveliness_pacing() {
    let mut db = DiscoveryDB::new();
    let manual_qos = QosPolicyBuilder::new()
        .liveliness(Liveliness::ManualByParticipant { lease_duration: Duration::from_secs(3) })
        .build();
    let _ = db.update_local_topic_writer(&writer_record(1, 0x43, manual_qos));
    let prefix = GuidPrefix::new(1, 0, 0);

    let mut state = LivelinessState::new(secs(100));
    let msgs = write_participant_message(&db, &mut state, prefix, secs(102));
    assert_eq!(msgs.len(), 1);
    assert_eq!(
        msgs[0].kind,
        ParticipantMessageDataKind::PARTICIPANT_MESSAGE_DATA_KIND_MANUAL_LIVELINESS_UPDATE
    );
    // a manual assertion does not restamp: only the explicit refresh
    // command does, so the next tick emits again
    assert_eq!(state.last_manual_participant_update, secs(100));
    let msgs = write_participant_message(&db, &mut state, prefix, secs(103));
    assert_eq!(msgs.len(), 1);

    // the refresh command quiets it
    state.last_manual_participant_update = secs(103);
    let msgs = write_participant_message(&db, &mut state, prefix, secs(104));
    assert!(msgs.is_empty());
}

#[test]
fn stop_disposes_all_local_endpoints() {
    let mut db = DiscoveryDB::new();
    let _ = db.update_local_topic_reader(&reader_record(1, 0x42));
    let _ = db.update_local_topic_writer(&writer_record(1, 0x43, QosPolicies::none()));
    let (readers, writers) = stop_discovery_disposals(&db);
    assert_eq!(readers, vec![guid(1, 0x42)]);
    assert_eq!(writers, vec![guid(1, 0x43)]);
}

#[test]
fn remove_local_writer_skips_builtin_writer() {
    let mut db = DiscoveryDB::new();
    let _ = db.update_local_topic_writer(&writer_record(1, 0x43, QosPolicies::none()));
    let builtin = guid(1, ENTITYID_SEDP_BUILTIN_PUBLICATIONS_WRITER);
    assert!(!handle_remove_local_writer(&mut db, builtin, builtin));
    assert_eq!(db.local_topic_writers.len(), 1);
    assert!(handle_remove_local_writer(&mut db, guid(1, 0x43), builtin));
    assert!(db.local_topic_writers.is_empty());
}

#[test]
fn topic_cleanup_drops_unreferenced_topics() {
    let mut db = DiscoveryDB::new();
    handle_subscription_reader(&mut db, Ok(&reader_record(0xd, 0x42)));
    assert_eq!(db.topics.len(), 1);
    // while the reader is known, its topic stays
    db.topic_cleanup();
    assert_eq!(db.topics.len(), 1);
    // once the reader is gone, the topic is unreferenced and goes too
    handle_subscription_reader(&mut db, Err(guid(0xd, 0x42)));
    db.topic_cleanup();
    assert!(db.topics.is_empty());
}

#[test]
fn endpoint_state_machine_paths() {
    let matched = endpoint_transition(
        EndpointState::Unknown,
        EndpointEvent::Discovered { compatible: true },
    );
    assert_eq!(matched, EndpointState::Matched);

    // an incompatible discovery is recorded but never matches
    assert_eq!(
        endpoint_transition(EndpointState::Unknown, EndpointEvent::Discovered { compatible: false }),
        EndpointState::Unknown
    );

    let disposed = endpoint_transition(matched, EndpointEvent::Dispose);
    assert_eq!(disposed, EndpointState::Disposed);
    let expired = endpoint_transition(matched, EndpointEvent::LeaseTimeout);
    assert_eq!(expired, EndpointState::Expired);

    // rediscovery revives either downed state
    assert_eq!(
        endpoint_transition(disposed, EndpointEvent::Discovered { compatible: true }),
        EndpointState::Matched
    );
    assert_eq!(
        endpoint_transition(expired, EndpointEvent::Discovered { compatible: true }),
        EndpointState::Matched
    );

    // dispose and timeout only act on a matched endpoint
    assert_eq!(endpoint_transition(disposed, EndpointEvent::LeaseTimeout), EndpointState::Disposed);
    assert_eq!(endpoint_transition(expired, EndpointEvent::Dispose), EndpointState::Expired);
}
