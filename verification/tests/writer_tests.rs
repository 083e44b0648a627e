use rustdds::cache_change::{ChangeKind, DDSData, Payload, TopicKind};
use rustdds::dds_cache::DDSCache;
use rustdds::guid::{EntityId, GuidPrefix, GUID};
use rustdds::time::Timestamp;
use rustdds::typedesc::TypeDesc;
use rustdds::writer::Writer;

#[test]
fn writes_carry_strictly_increasing_sequence_numbers() {
    let mut cache = DDSCache::new();
    let name = String::from("Square");
    cache.add_new_topic(&name, TopicKind::WithKey, &TypeDesc::new("ShapeType".into()));

    let writer_guid = GUID::new(GuidPrefix::new(1, 2, 3), EntityId::new(0x44));
    let mut writer = Writer::new(writer_guid, name.clone());
    writer.write(&mut cache, Timestamp::new(10), DDSData::new(1, vec![1]));
    writer.write(&mut cache, Timestamp::new(20), DDSData::new(1, vec![2]));
    writer.write(&mut cache, Timestamp::new(30), DDSData::new(1, vec![1]));

    let all = cache.from_topic_get_all_changes(&name).unwrap();
    assert_eq!(all.len(), 3);
    let mut previous: Option<i64> = None;
    for (_, change) in all.iter() {
        assert_eq!(change.writer_guid, writer_guid);
        assert_eq!(change.kind, ChangeKind::Alive);
        if let Some(p) = previous {
            assert!(p < change.sequence_number.value);
        }
        previous = Some(change.sequence_number.value);
    }
    assert_eq!(all[0].1.sequence_number.value, 1);
    assert_eq!(all[2].1.sequence_number.value, 3);
}

#[test]
fn dispose_appends_a_key_only_disposal() {
    let mut cache = DDSCache::new();
    let name = String::from("Square");
    cache.add_new_topic(&name, TopicKind::WithKey, &TypeDesc::new("ShapeType".into()));

    let writer_guid = GUID::new(GuidPrefix::new(1, 2, 3), EntityId::new(0x44));
    let mut writer = Writer::new(writer_guid, name.clone());
    writer.write(&mut cache, Timestamp::new(10), DDSData::new(1, vec![7]));
    writer.dispose(&mut cache, Timestamp::new(20), DDSData::new(1, vec![1]));

    let all = cache.from_topic_get_all_changes(&name).unwrap();
    assert_eq!(all.len(), 2);
    let disposal = &all[1].1;
    assert_eq!(disposal.kind, ChangeKind::NotAliveDisposed);
    assert_eq!(disposal.sequence_number.value, 2);
    assert_eq!(disposal.writer_guid, writer_guid);
    match &disposal.payload {
        Payload::KeyOnly(key) => assert_eq!(key.bytes, vec![1]),
        _ => panic!("a disposal must carry only the key"),
    }
}

#[test]
fn two_writers_interleave_without_breaking_each_other() {
    let mut cache = DDSCache::new();
    let name = String::from("Square");
    cache.add_new_topic(&name, TopicKind::WithKey, &TypeDesc::new("ShapeType".into()));

    let guid_a = GUID::new(GuidPrefix::new(1, 0, 0), EntityId::new(0x44));
    let guid_b = GUID::new(GuidPrefix::new(2, 0, 0), EntityId::new(0x45));
    let mut a = Writer::new(guid_a, name.clone());
    let mut b = Writer::new(guid_b, name.clone());
    a.write(&mut cache, Timestamp::new(10), DDSData::new(1, vec![1]));
    b.write(&mut cache, Timestamp::new(20), DDSData::new(1, vec![2]));
    a.write(&mut cache, Timestamp::new(30), DDSData::new(1, vec![3]));
    b.write(&mut cache, Timestamp::new(40), DDSData::new(1, vec![4]));

    let all = cache.from_topic_get_all_changes(&name).unwrap();
    let seqs_a: Vec<i64> = all
        .iter()
        .filter(|(_, c)| c.writer_guid == guid_a)
        .map(|(_, c)| c.sequence_number.value)
        .collect();
    let seqs_b: Vec<i64> = all
        .iter()
        .filter(|(_, c)| c.writer_guid == guid_b)
        .map(|(_, c)| c.sequence_number.value)
        .collect();
    assert_eq!(seqs_a, vec![1, 2]);
    assert_eq!(seqs_b, vec![1, 2]);
}

#[test]
fn keep_last_drops_only_this_writers_oldest() {
    let mut cache = DDSCache::new();
    let name = String::from("Square");
    cache.add_new_topic(&name, TopicKind::WithKey, &TypeDesc::new("ShapeType".into()));

    let guid_a = GUID::new(GuidPrefix::new(1, 0, 0), EntityId::new(0x44));
    let guid_b = GUID::new(GuidPrefix::new(2, 0, 0), EntityId::new(0x45));
    let mut a = Writer::new(guid_a, name.clone());
    let mut b = Writer::new(guid_b, name.clone());
    a.write(&mut cache, Timestamp::new(10), DDSData::new(1, vec![1]));
    b.write(&mut cache, Timestamp::new(15), DDSData::new(1, vec![9]));
    a.write(&mut cache, Timestamp::new(20), DDSData::new(1, vec![2]));
    a.write(&mut cache, Timestamp::new(30), DDSData::new(1, vec![3]));
    a.write(&mut cache, Timestamp::new(40), DDSData::new(1, vec![4]));
    b.write(&mut cache, Timestamp::new(45), DDSData::new(1, vec![8]));
    a.write(&mut cache, Timestamp::new(50), DDSData::new(1, vec![5]));

    a.enforce_keep_last(&mut cache, 3);

    let all = cache.from_topic_get_all_changes(&name).unwrap();
    // writer a keeps its newest three samples; writer b keeps both of its
    let stamps: Vec<u64> = all.iter().map(|(t, _)| t.ticks).collect();
    assert_eq!(stamps, vec![15, 30, 40, 45, 50]);
    let seqs_a: Vec<i64> = all
        .iter()
        .filter(|(_, c)| c.writer_guid == guid_a)
        .map(|(_, c)| c.sequence_number.value)
        .collect();
    assert_eq!(seqs_a, vec![3, 4, 5]);

    // a depth not exceeded changes nothing
    b.enforce_keep_last(&mut cache, 3);
    assert_eq!(cache.from_topic_get_all_changes(&name).unwrap().len(), 5);
}
