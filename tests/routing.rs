use leader_routing::geo::{classify, geo_to_region, to_geo_label, GeoLabel, IpInfoLite, RoutingRegion};
use leader_routing::geo_map::GeoMap;
use leader_routing::persist::{geo_map_json, load_geo_map};
use leader_routing::router::{route, SolanaLeaderRouter};

#[test]
fn test_geo_to_region_mapping() {
    assert_eq!(geo_to_region("Europe"), "Frankfurt");
    assert_eq!(geo_to_region("North America"), "NewYork");
    assert_eq!(geo_to_region("Asia"), "Tokyo");
    assert_eq!(geo_to_region("Middle East"), "Dubai");
    assert_eq!(geo_to_region("Africa"), "Frankfurt");
    assert_eq!(geo_to_region("Oceania"), "Tokyo");
    assert_eq!(geo_to_region("South America"), "NewYork");
    assert_eq!(geo_to_region("something weird"), "Frankfurt");
}

#[test]
fn test_geo_map_loads() {
    let mut m = GeoMap::new();
    for i in 0..1200 {
        m.insert(format!("validator{}", i), "Europe".to_string());
    }
    let map = load_geo_map(&geo_map_json(&m)).unwrap();
    assert!(map.len() > 1000, "geo map should have plenty of entries");
}

#[test]
fn unknown_label_and_empty_text_route_to_default() {
    assert_eq!(geo_to_region("UNKNOWN"), "Frankfurt");
    assert_eq!(geo_to_region(""), "Frankfurt");
    assert_eq!(geo_to_region("europe"), "Frankfurt");
}

#[test]
fn override_countries_are_middle_east_whatever_the_continent() {
    let codes = [
        "AE", "SA", "QA", "BH", "KW", "OM", "IR", "IQ", "IL", "JO", "LB", "TR", "PK", "IN", "BD",
        "LK", "EG",
    ];
    for cc in codes {
        for continent in ["AS", "EU", "AF", "NA", "", "XX"] {
            assert_eq!(classify(cc, continent), GeoLabel::MiddleEast);
        }
    }
}

#[test]
fn continent_table_outside_override_set() {
    assert_eq!(classify("DE", "EU"), GeoLabel::Europe);
    assert_eq!(classify("US", "NA"), GeoLabel::NorthAmerica);
    assert_eq!(classify("BR", "SA"), GeoLabel::SouthAmerica);
    assert_eq!(classify("NG", "AF"), GeoLabel::Africa);
    assert_eq!(classify("JP", "AS"), GeoLabel::Asia);
    assert_eq!(classify("AU", "OC"), GeoLabel::Oceania);
    assert_eq!(classify("AQ", "AN"), GeoLabel::Unknown);
    assert_eq!(classify("", ""), GeoLabel::Unknown);
    assert_eq!(classify("us", "na"), GeoLabel::Unknown);
}

#[test]
fn missing_fields_read_as_empty() {
    let none = IpInfoLite { continent_code: None, country_code: None };
    assert_eq!(to_geo_label(&none), GeoLabel::Unknown);
    let only_country = IpInfoLite { continent_code: None, country_code: Some("TR".to_string()) };
    assert_eq!(to_geo_label(&only_country), GeoLabel::MiddleEast);
    let only_continent = IpInfoLite { continent_code: Some("OC".to_string()), country_code: None };
    assert_eq!(to_geo_label(&only_continent), GeoLabel::Oceania);
}

#[test]
fn label_texts_and_regions() {
    assert_eq!(GeoLabel::MiddleEast.as_str(), "Middle East");
    assert_eq!(GeoLabel::Unknown.as_str(), "UNKNOWN");
    assert_eq!(GeoLabel::from_text("North America"), Some(GeoLabel::NorthAmerica));
    assert_eq!(GeoLabel::from_text("Mars"), None);
    assert_eq!(GeoLabel::Oceania.region(), RoutingRegion::Tokyo);
    assert_eq!(GeoLabel::Unknown.region(), RoutingRegion::Frankfurt);
    assert_eq!(RoutingRegion::NewYork.as_str(), "NewYork");
}

fn map_of(pairs: &[(&str, &str)]) -> GeoMap {
    let mut m = GeoMap::new();
    for (k, v) in pairs {
        m.insert(k.to_string(), v.to_string());
    }
    m
}

#[test]
fn end_to_end_example() {
    let m = map_of(&[("abc", "Asia")]);
    let hit = route(7, "abc".to_string(), &m);
    assert_eq!(hit.slot, 7);
    assert_eq!(hit.leader, "abc");
    assert_eq!(hit.leader_geo, "Asia");
    assert_eq!(hit.closest_region, "Tokyo");
    let miss = route(7, "xyz".to_string(), &m);
    assert_eq!(miss.leader_geo, "UNKNOWN");
    assert_eq!(miss.closest_region, "Frankfurt");
}

#[test]
fn absent_leader_is_unknown_in_frankfurt() {
    let m = GeoMap::new();
    let o = route(1, "nobody".to_string(), &m);
    assert_eq!(o.leader_geo, "UNKNOWN");
    assert_eq!(o.closest_region, "Frankfurt");
}

#[test]
fn unmapped_label_in_map_routes_to_default() {
    let m = map_of(&[("k", "Atlantis")]);
    let o = route(3, "k".to_string(), &m);
    assert_eq!(o.leader_geo, "Atlantis");
    assert_eq!(o.closest_region, "Frankfurt");
}

#[test]
fn run_routes_first_leader_and_rejects_empty_list() {
    let m = map_of(&[("a", "Middle East"), ("b", "Europe")]);
    let o = SolanaLeaderRouter::run(9, &vec!["a".to_string(), "b".to_string()], &m).unwrap();
    assert_eq!(o.slot, 9);
    assert_eq!(o.leader, "a");
    assert_eq!(o.leader_geo, "Middle East");
    assert_eq!(o.closest_region, "Dubai");
    let e = SolanaLeaderRouter::run(9, &vec![], &m).unwrap_err();
    assert_eq!(e, "no leader returned for current slot");
}

#[test]
fn map_insert_replaces_earlier_value() {
    let mut m = GeoMap::new();
    m.insert("a".to_string(), "Asia".to_string());
    m.insert("b".to_string(), "Europe".to_string());
    m.insert("a".to_string(), "Oceania".to_string());
    assert_eq!(m.len(), 2);
    assert_eq!(m.get_label(&"a".to_string()), Some("Oceania".to_string()));
    assert_eq!(m.get_label(&"c".to_string()), None);
}

#[test]
fn json_text_of_map() {
    let m = map_of(&[("a\"b", "Asia"), ("c", "Europe")]);
    assert_eq!(geo_map_json(&m), "{\"a\\\"b\":\"Asia\",\"c\":\"Europe\"}");
    assert_eq!(geo_map_json(&GeoMap::new()), "{}");
}

#[test]
fn json_load_accepts_objects_of_strings_only() {
    let m = load_geo_map("{\"abc\": \"Asia\", \"d\": \"Europe\"}").unwrap();
    assert_eq!(m.len(), 2);
    assert_eq!(m.get_label(&"abc".to_string()), Some("Asia".to_string()));
    assert!(load_geo_map("[1, 2]").is_none());
    assert!(load_geo_map("{\"a\": 3}").is_none());
    assert!(load_geo_map("not json").is_none());
    assert_eq!(load_geo_map("{}").unwrap().len(), 0);
}
