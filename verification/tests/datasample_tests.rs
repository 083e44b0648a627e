use rustdds::cache_change::ChangeKind;
use rustdds::datasample::{
    compute_sample_ranks, derive_instance_state, DataSample, InstanceState, SampleInfo,
    SampleState, ViewState,
};
use rustdds::discovery_db::DiscoveredReaderData;
use rustdds::guid::{EntityId, GuidPrefix, GUID};
use rustdds::qos::QosPolicies;
use rustdds::time::{Timestamp, TIME_INVALID_TICKS};

fn guid(n: u32) -> GUID {
    GUID::new(GuidPrefix::new(n, n, n), EntityId::new(n))
}

fn reader_record(n: u32) -> DiscoveredReaderData {
    DiscoveredReaderData {
        reader_guid: guid(n),
        topic_name: "Square".to_string(),
        data_type_name: "ShapeType".to_string(),
        qos: QosPolicies::none(),
        unicast_locators: vec![],
        multicast_locators: vec![],
    }
}

#[test]
fn state_sets_cover_their_states() {
    let s = SampleState::any();
    assert!(s.contains(SampleState::Read));
    assert!(s.contains(SampleState::NotRead));

    let v = ViewState::any();
    assert!(v.contains(ViewState::New));
    assert!(v.contains(ViewState::NotNew));

    let i = InstanceState::any();
    assert!(i.contains(InstanceState::Alive));
    assert!(i.contains(InstanceState::NotAlive_Disposed));
    assert!(i.contains(InstanceState::NotAlive_NoWriters));

    let na = InstanceState::not_alive();
    assert!(!na.contains(InstanceState::Alive));
    assert!(na.contains(InstanceState::NotAlive_Disposed));
    assert!(na.contains(InstanceState::NotAlive_NoWriters));
}

#[test]
fn sample_info_defaults() {
    let info = SampleInfo::new();
    assert_eq!(info.sample_state, SampleState::NotRead);
    assert_eq!(info.view_state, ViewState::New);
    assert_eq!(info.instance_state, InstanceState::Alive);
    assert_eq!(info.disposed_generation_count, 0);
    assert_eq!(info.no_writers_generation_count, 0);
    assert_eq!(info.sample_rank, 0);
    assert_eq!(info.generation_rank, 0);
    assert_eq!(info.absolute_generation_rank, 0);
    assert_eq!(info.source_timestamp.ticks, TIME_INVALID_TICKS);
    assert_eq!(info.publication_handle, GUID::guid_unknown());
}

#[test]
fn data_sample_wraps_a_live_value() {
    let writer = guid(9);
    let sample = DataSample::new(Timestamp::new(42), reader_record(3), writer);
    let info = sample.get_sample_info();
    assert_eq!(info.sample_state, SampleState::NotRead);
    assert_eq!(info.view_state, ViewState::New);
    assert_eq!(info.instance_state, InstanceState::Alive);
    assert_eq!(info.source_timestamp, Timestamp::new(42));
    assert_eq!(info.publication_handle, writer);
    assert_eq!(sample.get_key(), guid(3));
    assert!(sample.get_value().is_some());
    assert!(sample.get_keyed_value().is_ok());
    assert!(sample.into_value().is_some());
}

#[test]
fn data_sample_wraps_a_disposal() {
    let writer = guid(9);
    let sample: DataSample<DiscoveredReaderData> =
        DataSample::new_disposed(Timestamp::new(43), guid(3), writer);
    let info = sample.get_sample_info();
    assert_eq!(info.instance_state, InstanceState::NotAlive_Disposed);
    assert_eq!(info.publication_handle, writer);
    assert_eq!(sample.get_key(), guid(3));
    assert!(sample.get_value().is_none());
    assert!(sample.get_keyed_value().is_err());
    assert!(sample.into_value().is_none());
}

#[test]
fn rank_formulas_on_a_concrete_collection() {
    // four samples over two instances: a, b, a, a
    let instance_a = guid(1);
    let instance_b = guid(2);
    let instances = vec![instance_a, instance_b, instance_a, instance_a];
    let mut infos: Vec<SampleInfo> = Vec::new();
    let generation_pairs = [(0, 0), (1, 0), (1, 1), (2, 1)];
    for (d, nw) in generation_pairs.iter() {
        let mut info = SampleInfo::new();
        info.disposed_generation_count = *d;
        info.no_writers_generation_count = *nw;
        infos.push(info);
    }
    // the reader has seen generation totals 3 for instance a, 1 for b
    let reader_totals = vec![3, 1, 3, 3];

    compute_sample_ranks(&mut infos, &instances, &reader_totals);

    // sample_rank: later samples of the same instance in the collection
    assert_eq!(infos[0].sample_rank, 2);
    assert_eq!(infos[1].sample_rank, 0);
    assert_eq!(infos[2].sample_rank, 1);
    assert_eq!(infos[3].sample_rank, 0);

    // generation_rank: most recent sample of instance a totals 3, of b 1
    assert_eq!(infos[0].generation_rank, 3);
    assert_eq!(infos[1].generation_rank, 0);
    assert_eq!(infos[2].generation_rank, 1);
    assert_eq!(infos[3].generation_rank, 0);

    // absolute_generation_rank against the reader-known totals
    assert_eq!(infos[0].absolute_generation_rank, 3);
    assert_eq!(infos[1].absolute_generation_rank, 0);
    assert_eq!(infos[2].absolute_generation_rank, 1);
    assert_eq!(infos[3].absolute_generation_rank, 0);

    // everything else in each entry stays as it was
    assert_eq!(infos[2].disposed_generation_count, 1);
    assert_eq!(infos[2].no_writers_generation_count, 1);
    assert_eq!(infos[2].sample_state, SampleState::NotRead);
}

#[test]
fn instance_state_derivation() {
    assert_eq!(derive_instance_state(ChangeKind::Alive, true), InstanceState::Alive);
    assert_eq!(
        derive_instance_state(ChangeKind::Alive, false),
        InstanceState::NotAlive_NoWriters
    );
    assert_eq!(
        derive_instance_state(ChangeKind::NotAliveDisposed, true),
        InstanceState::NotAlive_Disposed
    );
    assert_eq!(
        derive_instance_state(ChangeKind::NotAliveUnregistered, false),
        InstanceState::NotAlive_NoWriters
    );
}
