//! The online half: picks the routing region nearest to the current leader.

use vstd::prelude::*;
use crate::geo::{default_region, geo_to_region, region_for_text, region_text, RoutingRegion};
use crate::geo_map::GeoMap;

verus! {

/// The routing decision for one slot.
#[derive(Debug)]
pub struct Output {
    pub slot: u64,
    pub leader: String,
    pub leader_geo: String,
    pub closest_region: String,
}

/// The router.
pub struct SolanaLeaderRouter;

/// The label text reported for a leader: the map's, or `UNKNOWN` when the map
/// has none.
pub open spec fn decision_geo(m: GeoMap, leader: Seq<char>) -> Seq<char> {
    match m.get(leader) {
        Some(g) => g,
        None => "UNKNOWN"@,
    }
}

/// The region chosen for a leader: the table's region for its label, or the
/// default when the map has none.
pub open spec fn decision_region(m: GeoMap, leader: Seq<char>) -> RoutingRegion {
    match m.get(leader) {
        Some(g) => region_for_text(g),
        None => default_region(),
    }
}

/// What `route` returns for a leader.
pub open spec fn routes_to(o: Output, slot: u64, leader: Seq<char>, m: GeoMap) -> bool {
    &&& o.slot == slot
    &&& o.leader@ == leader
    &&& o.leader_geo@ == decision_geo(m, leader)
    &&& o.closest_region@ == region_text(decision_region(m, leader))
}

/// Message returned when the slot has no leader.
pub open spec fn no_leader_message() -> Seq<char> {
    "no leader returned for current slot"@
}

/// Routes one leader identity through the map.
pub fn route(slot: u64, leader: String, geo_map: &GeoMap) -> (r: Output)
    ensures
        routes_to(r, slot, leader@, *geo_map),
{
    match geo_map.get_label(&leader) {
        Some(geo) => {
            let region = String::from_str(geo_to_region(geo.as_str()));
            Output { slot, leader, leader_geo: geo, closest_region: region }
        },
        None => {
            let region = String::from_str(RoutingRegion::default_region().as_str());
            Output { slot, leader, leader_geo: String::from_str("UNKNOWN"), closest_region: region }
        },
    }
}

impl SolanaLeaderRouter {
    /// Decides for a slot, given the leaders that were returned for it: the
    /// first one is routed; an empty list is an error.
    pub fn run(slot: u64, leaders: &Vec<String>, geo_map: &GeoMap) -> (r: Result<Output, String>)
        ensures
            r is Err <==> leaders@.len() == 0,
            r matches Err(e) ==> e@ == no_leader_message(),
            r matches Ok(o) ==> routes_to(o, slot, leaders@[0]@, *geo_map),
    {
        if leaders.len() == 0 {
            return Err(String::from_str("no leader returned for current slot"));
        }
        let leader = leaders[0].clone();
        Ok(route(slot, leader, geo_map))
    }
}

} // verus!
