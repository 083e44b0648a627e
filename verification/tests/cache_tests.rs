use rustdds::cache_change::{CacheChange, ChangeKind, DDSData, Payload, SequenceNumber, TopicKind};
use rustdds::dds_cache::DDSCache;
use rustdds::guid::{EntityId, GuidPrefix, GUID};
use rustdds::time::Timestamp;
use rustdds::typedesc::TypeDesc;

fn guid(n: u32) -> GUID {
    GUID::new(GuidPrefix::new(n, 0, 0), EntityId::new(n))
}

fn alive_change(writer: u32, seq: i64, byte: u8) -> CacheChange {
    CacheChange::new(
        ChangeKind::Alive,
        guid(writer),
        SequenceNumber::new(seq),
        Payload::Data(DDSData::new(1, vec![byte])),
    )
}

#[test]
fn create_dds_cache() {
    let mut cache = DDSCache::new();
    let topic_name = String::from("ImJustATopic");
    assert!(cache.add_new_topic(
        &topic_name,
        TopicKind::WithKey,
        &TypeDesc::new("IDontKnowIfThisIsNecessary".to_string()),
    ));
    cache.to_topic_add_change(&topic_name, &Timestamp::new(100), alive_change(1, 1, 0));
    cache.to_topic_add_change(&topic_name, &Timestamp::new(200), alive_change(1, 2, 1));
    cache.to_topic_add_change(&topic_name, &Timestamp::new(300), alive_change(1, 3, 2));

    let in_range = cache
        .from_topic_get_changes_in_range(&topic_name, &Timestamp::new(0), &Timestamp::new(400))
        .unwrap();
    assert_eq!(in_range.len(), 3);
}

#[test]
fn add_topic_is_idempotent_by_name() {
    let mut cache = DDSCache::new();
    let name = String::from("Square");
    assert!(cache.add_new_topic(&name, TopicKind::WithKey, &TypeDesc::new("ShapeType".into())));
    cache.to_topic_add_change(&name, &Timestamp::new(5), alive_change(7, 1, 9));

    // a second registration under the same name is rejected ...
    assert!(!cache.add_new_topic(&name, TopicKind::NoKey, &TypeDesc::new("Other".into())));

    // ... and the first record, with its content, is intact
    let all = cache.from_topic_get_all_changes(&name).unwrap();
    assert_eq!(all.len(), 1);
    assert_eq!(all[0].0, Timestamp::new(5));
    assert_eq!(all[0].1.sequence_number, SequenceNumber::new(1));
}

#[test]
fn range_is_half_open_and_ascending() {
    let mut cache = DDSCache::new();
    let name = String::from("Square");
    cache.add_new_topic(&name, TopicKind::WithKey, &TypeDesc::new("ShapeType".into()));
    // inserted out of order on purpose
    cache.to_topic_add_change(&name, &Timestamp::new(30), alive_change(1, 3, 3));
    cache.to_topic_add_change(&name, &Timestamp::new(10), alive_change(1, 1, 1));
    cache.to_topic_add_change(&name, &Timestamp::new(20), alive_change(1, 2, 2));

    // (10, 30]: the lower bound is excluded, the upper included
    let r = cache
        .from_topic_get_changes_in_range(&name, &Timestamp::new(10), &Timestamp::new(30))
        .unwrap();
    assert_eq!(r.len(), 2);
    assert_eq!(r[0].0, Timestamp::new(20));
    assert_eq!(r[1].0, Timestamp::new(30));

    // empty window
    let empty = cache
        .from_topic_get_changes_in_range(&name, &Timestamp::new(30), &Timestamp::new(30))
        .unwrap();
    assert_eq!(empty.len(), 0);

    // unknown topic
    assert!(cache
        .from_topic_get_changes_in_range(&String::from("NoSuch"), &Timestamp::new(0), &Timestamp::new(99))
        .is_none());
}

#[test]
fn get_remove_and_dispose_changes() {
    let mut cache = DDSCache::new();
    let name = String::from("T");
    cache.add_new_topic(&name, TopicKind::WithKey, &TypeDesc::new("D".into()));
    cache.to_topic_add_change(&name, &Timestamp::new(1), alive_change(1, 1, 1));
    cache.to_topic_add_change(&name, &Timestamp::new(2), alive_change(1, 2, 2));

    let c = cache.from_topic_get_change(&name, &Timestamp::new(1)).unwrap();
    assert_eq!(c.kind, ChangeKind::Alive);
    assert_eq!(c.sequence_number, SequenceNumber::new(1));

    cache.from_topic_set_change_to_not_alive_disposed(&name, &Timestamp::new(1));
    let c = cache.from_topic_get_change(&name, &Timestamp::new(1)).unwrap();
    assert_eq!(c.kind, ChangeKind::NotAliveDisposed);
    // the other entry is untouched
    let c2 = cache.from_topic_get_change(&name, &Timestamp::new(2)).unwrap();
    assert_eq!(c2.kind, ChangeKind::Alive);

    let removed = cache.from_topic_remove_change(&name, &Timestamp::new(1)).unwrap();
    assert_eq!(removed.kind, ChangeKind::NotAliveDisposed);
    assert!(cache.from_topic_get_change(&name, &Timestamp::new(1)).is_none());
    assert!(cache.from_topic_remove_change(&name, &Timestamp::new(1)).is_none());
}

#[test]
fn topic_qos_lookup_and_update() {
    let mut cache = DDSCache::new();
    let name = String::from("T");
    assert!(cache.get_topic_qos(&name).is_none());
    cache.add_new_topic(&name, TopicKind::NoKey, &TypeDesc::new("D".into()));
    let qos = *cache.get_topic_qos(&name).unwrap();
    assert_eq!(qos, rustdds::qos::QosPolicies::none());

    let new_qos = rustdds::qos::QosPolicyBuilder::new()
        .durability(rustdds::qos::Durability::TransientLocal)
        .build();
    assert!(cache.set_topic_qos(&name, new_qos));
    assert_eq!(*cache.get_topic_qos(&name).unwrap(), new_qos);
    assert!(!cache.set_topic_qos(&String::from("NoSuch"), new_qos));

    let richer_qos = rustdds::qos::QosPolicyBuilder::new()
        .history(rustdds::qos::History::KeepLast { depth: 5 })
        .build();
    *cache.get_topic_qos_mut(&name).unwrap() = richer_qos;
    assert_eq!(*cache.get_topic_qos(&name).unwrap(), richer_qos);
    assert!(cache.get_topic_qos_mut(&String::from("NoSuch")).is_none());
}

#[test]
fn remove_topic_forgets_it() {
    let mut cache = DDSCache::new();
    let name = String::from("T");
    cache.add_new_topic(&name, TopicKind::NoKey, &TypeDesc::new("D".into()));
    cache.remove_topic(&name);
    assert!(cache.get_topic_qos(&name).is_none());
    // removing an absent topic is a no-op
    cache.remove_topic(&name);
}
