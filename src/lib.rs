//! Geographic routing of RPC traffic towards the current slot leader.
//!
//! The generator half classifies node addresses into coarse geographic
//! labels and builds an identity-to-label map; the router half reads such a
//! map and picks the nearest routing region for a leader identity.

pub mod address;
pub mod block_time;
pub mod geo;
pub mod geo_map;
pub mod laws;
pub mod orchestrator;
pub mod persist;
pub mod router;
