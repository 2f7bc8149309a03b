use leader_routing::address::{node_records, record_addresses, unique_addresses, Address, ClusterNode};
use leader_routing::block_time::{micros_to_millis, BlockTime};
use leader_routing::geo::{GeoLabel, IpInfoLite};
use leader_routing::geo_map::{build_geo_map, label_counts};
use leader_routing::orchestrator::{
    lookup_label, resolve, LookupError, LookupResponse, Orchestrator, BATCH_SIZE,
};
use leader_routing::persist::{geo_map_json, load_geo_map};
use leader_routing::router::route;

fn v4(a: u8, b: u8, c: u8, d: u8) -> Address {
    Address::V4(u32::from_be_bytes([a, b, c, d]))
}

fn node(id: &str, gossip: Option<Address>) -> ClusterNode {
    ClusterNode { identity: id.to_string(), gossip }
}

fn info(country: &str, continent: &str) -> LookupResponse {
    LookupResponse::Info(IpInfoLite {
        continent_code: Some(continent.to_string()),
        country_code: Some(country.to_string()),
    })
}

/// Runs every batch, answering each address with `answer`.
fn run_all(o: &mut Orchestrator, answer: &dyn Fn(Address) -> Result<GeoLabel, LookupError>) -> Vec<usize> {
    let mut sizes = Vec::new();
    while !o.is_done() {
        let batch = o.next_batch();
        sizes.push(batch.len());
        let outcomes: Vec<_> = batch.iter().map(|a| answer(*a)).collect();
        o.record_batch(&outcomes);
    }
    sizes
}

#[test]
fn usable_addresses_exclude_loopback_and_unspecified() {
    assert!(!v4(127, 0, 0, 1).is_usable());
    assert!(!v4(127, 255, 1, 2).is_usable());
    assert!(!v4(0, 0, 0, 0).is_usable());
    assert!(v4(128, 0, 0, 1).is_usable());
    assert!(v4(10, 0, 0, 0).is_usable());
    assert!(!Address::V6(1).is_usable());
    assert!(!Address::V6(0).is_usable());
    assert!(Address::V6(2).is_usable());
}

#[test]
fn node_records_keep_usable_nodes_in_order() {
    let nodes = vec![
        node("a", Some(v4(1, 2, 3, 4))),
        node("b", None),
        node("c", Some(v4(127, 0, 0, 1))),
        node("d", Some(v4(0, 0, 0, 0))),
        node("e", Some(v4(1, 2, 3, 4))),
    ];
    let r = node_records(&nodes);
    assert_eq!(r.len(), 2);
    assert_eq!(r[0], ("a".to_string(), v4(1, 2, 3, 4)));
    assert_eq!(r[1], ("e".to_string(), v4(1, 2, 3, 4)));
    assert_eq!(record_addresses(&r), vec![v4(1, 2, 3, 4), v4(1, 2, 3, 4)]);
}

#[test]
fn shared_addresses_are_looked_up_once() {
    let addrs = vec![v4(1, 1, 1, 1), v4(2, 2, 2, 2), v4(1, 1, 1, 1), v4(2, 2, 2, 2), v4(3, 3, 3, 3)];
    assert_eq!(unique_addresses(&addrs), vec![v4(1, 1, 1, 1), v4(2, 2, 2, 2), v4(3, 3, 3, 3)]);
    let mut o = Orchestrator::new(&addrs);
    assert_eq!(o.total(), 3);
    let mut asked = Vec::new();
    while !o.is_done() {
        let batch = o.next_batch();
        asked.extend(batch.iter().copied());
        let outcomes: Vec<_> = batch.iter().map(|_| Ok(GeoLabel::Europe)).collect();
        o.record_batch(&outcomes);
    }
    assert_eq!(asked.len(), 3);
    assert_eq!(o.resolved_count(), 3);
}

#[test]
fn batches_hold_at_most_fifty() {
    let addrs: Vec<Address> = (1..=120u32).map(Address::V4).collect();
    let mut o = Orchestrator::new(&addrs);
    let sizes = run_all(&mut o, &|_| Ok(GeoLabel::Asia));
    assert_eq!(BATCH_SIZE, 50);
    assert_eq!(sizes, vec![50, 50, 20]);
    assert_eq!(o.resolved_count(), 120);
    assert!(o.next_batch().is_empty());
}

#[test]
fn every_success_is_kept() {
    let addrs: Vec<Address> = (1..=75u32).map(Address::V4).collect();
    let mut o = Orchestrator::new(&addrs);
    run_all(&mut o, &|_| Ok(GeoLabel::Oceania));
    assert_eq!(o.resolved_count(), 75);
}

#[test]
fn failures_are_left_out_and_others_unaffected() {
    let addrs: Vec<Address> = (1..=60u32).map(Address::V4).collect();
    let mut o = Orchestrator::new(&addrs);
    run_all(&mut o, &|a| match a {
        Address::V4(x) if x % 10 == 0 => Err(LookupError::Network),
        Address::V4(x) if x % 7 == 0 => Err(LookupError::Parse),
        _ => Ok(GeoLabel::Africa),
    });
    // 6 multiples of ten and 8 of seven (70 is out of range) fail.
    assert_eq!(o.resolved_count(), 60 - 6 - 8);
    let table = o.resolved();
    assert_eq!(lookup_label(table, Address::V4(10)), None);
    assert_eq!(lookup_label(table, Address::V4(14)), None);
    assert_eq!(lookup_label(table, Address::V4(11)), Some(GeoLabel::Africa));
    assert_eq!(lookup_label(table, Address::V4(999)), None);
}

#[test]
fn a_fully_failed_batch_does_not_stop_the_run() {
    let addrs: Vec<Address> = (1..=100u32).map(Address::V4).collect();
    let mut o = Orchestrator::new(&addrs);
    let first = o.next_batch();
    o.record_batch(&first.iter().map(|_| Err(LookupError::Network)).collect());
    assert_eq!(o.resolved_count(), 0);
    assert!(!o.is_done());
    let second = o.next_batch();
    o.record_batch(&second.iter().map(|_| Ok(GeoLabel::Europe)).collect());
    assert!(o.is_done());
    assert_eq!(o.resolved_count(), 50);
}

#[test]
fn resolve_maps_each_response() {
    assert_eq!(resolve(&LookupResponse::Failed), Err(LookupError::Network));
    assert_eq!(resolve(&LookupResponse::Malformed), Err(LookupError::Parse));
    assert_eq!(resolve(&info("US", "NA")), Ok(GeoLabel::NorthAmerica));
    assert_eq!(resolve(&info("IN", "AS")), Ok(GeoLabel::MiddleEast));
    assert_eq!(resolve(&info("XX", "ZZ")), Ok(GeoLabel::Unknown));
}

#[test]
fn unresolved_identities_are_left_out() {
    let nodes = vec![
        node("a", Some(v4(1, 1, 1, 1))),
        node("b", Some(v4(2, 2, 2, 2))),
        node("c", None),
        node("d", Some(v4(127, 0, 0, 1))),
        node("e", Some(v4(1, 1, 1, 1))),
    ];
    let records = node_records(&nodes);
    let table = vec![(v4(1, 1, 1, 1), GeoLabel::Asia)];
    let m = build_geo_map(&records, &table);
    assert_eq!(m.len(), 2);
    assert_eq!(m.get_label(&"a".to_string()), Some("Asia".to_string()));
    assert_eq!(m.get_label(&"e".to_string()), Some("Asia".to_string()));
    assert_eq!(m.get_label(&"b".to_string()), None);
    assert_eq!(m.get_label(&"c".to_string()), None);
    assert_eq!(m.get_label(&"d".to_string()), None);
}

#[test]
fn label_counts_most_frequent_first() {
    let records = vec![
        ("a".to_string(), v4(1, 1, 1, 1)),
        ("b".to_string(), v4(2, 2, 2, 2)),
        ("c".to_string(), v4(2, 2, 2, 2)),
        ("d".to_string(), v4(3, 3, 3, 3)),
        ("e".to_string(), v4(2, 2, 2, 2)),
    ];
    let table = vec![
        (v4(1, 1, 1, 1), GeoLabel::Europe),
        (v4(2, 2, 2, 2), GeoLabel::Asia),
        (v4(3, 3, 3, 3), GeoLabel::Europe),
    ];
    let m = build_geo_map(&records, &table);
    assert_eq!(label_counts(&m), vec![(GeoLabel::Asia, 3), (GeoLabel::Europe, 2)]);
}

#[test]
fn generated_json_routes_identically() {
    let nodes = vec![
        node("v1", Some(v4(1, 1, 1, 1))),
        node("v2", Some(v4(2, 2, 2, 2))),
        node("v3", Some(v4(3, 3, 3, 3))),
        node("v4", Some(v4(4, 4, 4, 4))),
    ];
    let records = node_records(&nodes);
    let mut o = Orchestrator::new(&record_addresses(&records));
    run_all(&mut o, &|a| match a {
        Address::V4(x) if x == u32::from_be_bytes([1, 1, 1, 1]) => Ok(GeoLabel::MiddleEast),
        Address::V4(x) if x == u32::from_be_bytes([2, 2, 2, 2]) => Ok(GeoLabel::SouthAmerica),
        Address::V4(x) if x == u32::from_be_bytes([3, 3, 3, 3]) => Ok(GeoLabel::Unknown),
        _ => Err(LookupError::Network),
    });
    let built = build_geo_map(&records, o.resolved());
    let loaded = load_geo_map(&geo_map_json(&built)).unwrap();
    for id in ["v1", "v2", "v3", "v4", "other"] {
        let a = route(5, id.to_string(), &built);
        let b = route(5, id.to_string(), &loaded);
        assert_eq!(a.leader_geo, b.leader_geo);
        assert_eq!(a.closest_region, b.closest_region);
    }
    assert_eq!(route(5, "v1".to_string(), &loaded).closest_region, "Dubai");
    assert_eq!(route(5, "v2".to_string(), &loaded).closest_region, "NewYork");
    assert_eq!(route(5, "v3".to_string(), &loaded).leader_geo, "UNKNOWN");
    assert_eq!(route(5, "v4".to_string(), &loaded).leader_geo, "UNKNOWN");
}

#[test]
fn block_time_response() {
    let t = BlockTime::assemble(1_700_000_000, "hash".to_string(), 1_700_000_000_123_456, 1_700_000_000_223_457);
    assert_eq!(t.block_time, 1_700_000_000);
    assert_eq!(t.block_hash, "hash");
    assert_eq!(t.system_time, 1_700_000_000_123);
    assert_eq!(t.time_elapsed, 100_001);
    let wide = BlockTime::assemble(0, String::new(), i64::MIN, i64::MAX);
    assert_eq!(wide.time_elapsed, 0);
    assert_eq!(micros_to_millis(-1), -1);
    assert_eq!(micros_to_millis(-1000), -1);
    assert_eq!(micros_to_millis(-1001), -2);
    assert_eq!(micros_to_millis(999), 0);
}
