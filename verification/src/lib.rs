//! Road, lane and navigation rules of a traffic simulation, proved with Verus.
//!
//! - `tags`: OpenStreetMap key/value tags with unique keys.
//! - `lane_specs`: turning the tags of a way into a left-to-right list of lanes.
//! - `geometry`: the road clean-up step that runs before geometry is built.
//! - `warp`: parsing the "warp to an object by ID" input and the warp screens' decisions.
//! - `routes`: the decisions of the route explorer screen.
use vstd::prelude::*;

pub mod tags;
pub mod lane_specs;
pub mod geometry;
pub mod warp;
pub mod routes;

verus! {

} // verus!
