use moobius::{CacheError, ConvertStep, Direction, RemoteError, ServiceGroupLib, join_ids};

fn ids(xs: &[&str]) -> Vec<String> {
    xs.iter().map(|x| x.to_string()).collect()
}

#[test]
fn joins_ids_with_underscores() {
    assert_eq!(join_ids(&ids(&[])), "");
    assert_eq!(join_ids(&ids(&["a"])), "a");
    assert_eq!(join_ids(&ids(&["a", "b", "c"])), "a_b_c");
}

#[test]
fn empty_recipient_list_short_circuits_both_directions() {
    let cache = ServiceGroupLib::new();
    for direction in [Direction::Outbound, Direction::Inbound] {
        match cache.convert_list(direction, &ids(&[]), None) {
            ConvertStep::Resolved(g) => assert_eq!(g, ""),
            _ => panic!("empty list must resolve to the empty sentinel"),
        }
    }
}

#[test]
fn outbound_miss_asks_for_service_group() {
    let cache = ServiceGroupLib::new();
    match cache.convert_list(Direction::Outbound, &ids(&["a", "b"]), None) {
        ConvertStep::CreateServiceGroup => {}
        _ => panic!("an outbound miss must ask for a service group"),
    }
}

#[test]
fn inbound_miss_without_channel_fails() {
    let cache = ServiceGroupLib::new();
    match cache.convert_list(Direction::Inbound, &ids(&["a", "b"]), None) {
        ConvertStep::Failed(e) => assert_eq!(e, CacheError::MissingChannelId),
        _ => panic!("an inbound miss without a channel id must fail"),
    }
}

#[test]
fn inbound_miss_with_channel_asks_for_channel_group() {
    let cache = ServiceGroupLib::new();
    let channel = "ch1".to_string();
    match cache.convert_list(Direction::Inbound, &ids(&["a", "b"]), Some(&channel)) {
        ConvertStep::CreateChannelGroup(ch) => assert_eq!(ch, "ch1"),
        _ => panic!("an inbound miss with a channel id must ask for a channel group"),
    }
}

#[test]
fn resolution_is_idempotent_and_creates_once() {
    let mut cache = ServiceGroupLib::new();
    let list = ids(&["a", "b"]);
    match cache.convert_list(Direction::Outbound, &list, None) {
        ConvertStep::CreateServiceGroup => {}
        _ => panic!("first resolution must be a miss"),
    }
    let got = cache
        .record_group(Direction::Outbound, &list, Ok("g1".to_string()))
        .unwrap();
    assert_eq!(got, "g1");
    match cache.convert_list(Direction::Outbound, &list, None) {
        ConvertStep::Resolved(g) => assert_eq!(g, "g1"),
        _ => panic!("second resolution must be a hit without a remote call"),
    }
}

#[test]
fn directions_are_isolated() {
    let mut cache = ServiceGroupLib::new();
    let list = ids(&["a", "b"]);
    cache
        .record_group(Direction::Outbound, &list, Ok("g-out".to_string()))
        .unwrap();
    let channel = "ch1".to_string();
    match cache.convert_list(Direction::Inbound, &list, Some(&channel)) {
        ConvertStep::CreateChannelGroup(_) => {}
        _ => panic!("the other direction must still miss: its table is its own"),
    }
    cache
        .record_group(Direction::Inbound, &list, Ok("g-in".to_string()))
        .unwrap();
    match cache.convert_list(Direction::Outbound, &list, None) {
        ConvertStep::Resolved(g) => assert_eq!(g, "g-out"),
        _ => panic!("outbound entry must survive the inbound creation"),
    }
    match cache.convert_list(Direction::Inbound, &list, Some(&channel)) {
        ConvertStep::Resolved(g) => assert_eq!(g, "g-in"),
        _ => panic!("inbound entry must be its own"),
    }
}

#[test]
fn order_of_recipients_is_significant() {
    let mut cache = ServiceGroupLib::new();
    let ab = ids(&["alice", "bobby"]);
    let ba = ids(&["bobby", "alice"]);
    cache
        .record_group(Direction::Outbound, &ab, Ok("g-ab".to_string()))
        .unwrap();
    match cache.convert_list(Direction::Outbound, &ba, None) {
        ConvertStep::CreateServiceGroup => {}
        _ => panic!("the reordered list must be a separate entry"),
    }
    cache
        .record_group(Direction::Outbound, &ba, Ok("g-ba".to_string()))
        .unwrap();
    match cache.convert_list(Direction::Outbound, &ab, None) {
        ConvertStep::Resolved(g) => assert_eq!(g, "g-ab"),
        _ => panic!("the first order must keep its own group id"),
    }
    match cache.convert_list(Direction::Outbound, &ba, None) {
        ConvertStep::Resolved(g) => assert_eq!(g, "g-ba"),
        _ => panic!("the second order must keep its own group id"),
    }
}

#[test]
fn remote_failure_writes_nothing_and_is_retried() {
    let mut cache = ServiceGroupLib::new();
    let list = ids(&["a"]);
    let r = cache.record_group(Direction::Outbound, &list, Err(RemoteError::RequestFailed));
    assert_eq!(r, Err(CacheError::RemoteCreateFailed));
    match cache.convert_list(Direction::Outbound, &list, None) {
        ConvertStep::CreateServiceGroup => {}
        _ => panic!("a failed creation must leave no entry, so the next call retries"),
    }
}

#[test]
fn reverse_table_answers_membership() {
    let mut cache = ServiceGroupLib::new();
    let list = ids(&["a", "b"]);
    cache
        .record_group(Direction::Outbound, &list, Ok("g1".to_string()))
        .unwrap();
    let gid = "g1".to_string();
    assert!(cache.has_group_id(Direction::Outbound, &gid));
    assert!(!cache.has_group_id(Direction::Inbound, &gid));
    let members = cache.group_members(Direction::Outbound, &gid).unwrap();
    assert_eq!(members.clone(), vec!["a".to_string(), "b".to_string()]);
    let unknown = "nope".to_string();
    assert!(cache.group_members(Direction::Outbound, &unknown).is_none());
}

#[test]
fn a_single_recipient_is_its_own_signature() {
    let mut cache = ServiceGroupLib::new();
    let one = ids(&["solo"]);
    assert_eq!(join_ids(&one), "solo");
    cache
        .record_group(Direction::Outbound, &one, Ok("g-solo".to_string()))
        .unwrap();
    match cache.convert_list(Direction::Outbound, &one, None) {
        ConvertStep::Resolved(g) => assert_eq!(g, "g-solo"),
        _ => panic!("a single recipient must be cached like any other list"),
    }
}
