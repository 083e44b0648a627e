use rustdds::qos::{
    Deadline, Durability, History, Liveliness, Ownership, QosPolicies, QosPolicyBuilder,
    Reliability,
};
use rustdds::time::Duration;

fn base() -> QosPolicies {
    QosPolicies::none()
}

#[test]
fn best_effort_request_accepts_any_offer() {
    let requested = QosPolicyBuilder::new().reliability(Reliability::BestEffort).build();
    let offered_be = QosPolicyBuilder::new().reliability(Reliability::BestEffort).build();
    let offered_rel = QosPolicyBuilder::new()
        .reliability(Reliability::Reliable { max_blocking_time: Duration::zero() })
        .build();
    assert!(requested.is_compatible_with(&offered_be));
    assert!(requested.is_compatible_with(&offered_rel));
}

#[test]
fn reliable_request_needs_reliable_offer() {
    // a reader asking for reliable delivery never matches a best-effort writer
    let requested = QosPolicyBuilder::new()
        .reliability(Reliability::Reliable { max_blocking_time: Duration::zero() })
        .build();
    let offered = QosPolicyBuilder::new().reliability(Reliability::BestEffort).build();
    assert!(!requested.is_compatible_with(&offered));
    let offered_rel = QosPolicyBuilder::new()
        .reliability(Reliability::Reliable { max_blocking_time: Duration::from_millis(5) })
        .build();
    assert!(requested.is_compatible_with(&offered_rel));
}

#[test]
fn durability_is_ordered() {
    let requested = QosPolicyBuilder::new().durability(Durability::TransientLocal).build();
    let lower = QosPolicyBuilder::new().durability(Durability::Volatile).build();
    let equal = QosPolicyBuilder::new().durability(Durability::TransientLocal).build();
    let higher = QosPolicyBuilder::new().durability(Durability::Persistent).build();
    assert!(!requested.is_compatible_with(&lower));
    assert!(requested.is_compatible_with(&equal));
    assert!(requested.is_compatible_with(&higher));
}

#[test]
fn deadline_requested_must_cover_offered() {
    let requested = QosPolicyBuilder::new().deadline(Deadline(Duration::from_secs(2))).build();
    let offered_faster = QosPolicyBuilder::new().deadline(Deadline(Duration::from_secs(1))).build();
    let offered_slower = QosPolicyBuilder::new().deadline(Deadline(Duration::from_secs(3))).build();
    assert!(requested.is_compatible_with(&offered_faster));
    assert!(!requested.is_compatible_with(&offered_slower));
    // an absent deadline means "infinite", which accepts anything offered
    assert!(base().is_compatible_with(&offered_faster));
}

#[test]
fn liveliness_kind_and_lease_are_checked() {
    let requested = QosPolicyBuilder::new()
        .liveliness(Liveliness::ManualByParticipant { lease_duration: Duration::from_secs(3) })
        .build();
    let offered_weaker_kind = QosPolicyBuilder::new()
        .liveliness(Liveliness::Automatic { lease_duration: Duration::from_secs(1) })
        .build();
    assert!(!requested.is_compatible_with(&offered_weaker_kind));
    let offered_ok = QosPolicyBuilder::new()
        .liveliness(Liveliness::ManualByTopic { lease_duration: Duration::from_secs(1) })
        .build();
    assert!(requested.is_compatible_with(&offered_ok));
    let offered_longer_lease = QosPolicyBuilder::new()
        .liveliness(Liveliness::ManualByTopic { lease_duration: Duration::from_secs(10) })
        .build();
    assert!(!requested.is_compatible_with(&offered_longer_lease));
}

#[test]
fn ownership_must_agree() {
    let shared = QosPolicyBuilder::new().ownership(Ownership::Shared).build();
    let exclusive = QosPolicyBuilder::new().ownership(Ownership::Exclusive).build();
    assert!(!shared.is_compatible_with(&exclusive));
    assert!(!exclusive.is_compatible_with(&shared));
    assert!(exclusive.is_compatible_with(&exclusive));
    // absent ownership defaults to shared
    assert!(base().is_compatible_with(&shared));
}

#[test]
fn builder_composes_policies() {
    let q = QosPolicyBuilder::new()
        .durability(Durability::Transient)
        .history(History::KeepLast { depth: 3 })
        .reliability(Reliability::BestEffort)
        .build();
    assert_eq!(q.durability, Some(Durability::Transient));
    assert_eq!(q.history, Some(History::KeepLast { depth: 3 }));
    assert_eq!(q.reliability, Some(Reliability::BestEffort));
    assert_eq!(q.deadline, None);
    assert_eq!(q.ownership, None);
}

#[test]
fn builtin_qos_values() {
    let sub = rustdds::discovery::subscriber_qos();
    assert_eq!(sub.durability, Some(Durability::TransientLocal));
    assert_eq!(sub.history, Some(History::KeepAll));
    assert_eq!(
        sub.reliability,
        Some(Reliability::Reliable { max_blocking_time: Duration::from_millis(100) })
    );

    let spdp = rustdds::discovery::create_spdp_participant_qos();
    assert_eq!(spdp.reliability, Some(Reliability::BestEffort));
    assert_eq!(spdp.history, Some(History::KeepLast { depth: 1 }));

    let pm = rustdds::discovery::participant_message_qos();
    assert_eq!(pm.durability, Some(Durability::TransientLocal));
    assert_eq!(pm.history, Some(History::KeepLast { depth: 1 }));
}
