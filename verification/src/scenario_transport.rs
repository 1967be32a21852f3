//! The transport overlay's catalog: the atlas regions and the anchors for flying and sailing.

use vstd::prelude::*;

use crate::scenario_class::UnitInterval;
use crate::scenario_path::ScenarioRelativePath;

verus! {

/// A tile position on a map.
#[derive(Clone, Copy, Debug, PartialEq, Eq, Structural)]
pub struct Position {
    pub x: i32,
    pub y: i32,
}

impl Position {
    /// The tile at column `x`, row `y`.
    pub fn new(x: i32, y: i32) -> (r: Self)
        ensures
            r == (Position { x, y }),
    {
        Position { x, y }
    }
}

/// The transport catalog.
#[derive(Debug, PartialEq)]
pub struct TransportCatalog {
    pub map_image: ScenarioRelativePath,
    pub sail_unlock_flag: String,
    pub fly_unlock_flag: String,
    pub regions: Vec<AtlasRegion>,
    pub fly_anchors: Vec<TravelAnchor>,
    pub sail_berths: Vec<TravelAnchor>,
    pub sail_edges: Vec<SailEdge>,
}

/// A region of the atlas.
#[derive(Clone, Debug, PartialEq)]
pub struct AtlasRegion {
    pub id: String,
    pub name: String,
    pub position: AtlasPosition,
    pub maps: Vec<AtlasMap>,
}

/// A map within an atlas region.
#[derive(Clone, Debug, PartialEq, Eq)]
pub struct AtlasMap {
    pub id: String,
    pub outdoor: bool,
}

/// A normalized position on the atlas image.
#[derive(Clone, Copy, Debug, PartialEq, Eq, Structural)]
pub struct AtlasPosition {
    pub x: UnitInterval,
    pub y: UnitInterval,
}

/// A place the party can fly or sail to.
#[derive(Clone, Debug, PartialEq, Eq)]
pub struct TravelAnchor {
    pub id: String,
    pub name: String,
    pub region: String,
    pub map: String,
    pub position: Position,
    /// The flag that reveals the anchor, if any.
    pub reveal_flag: Option<String>,
}

/// A sailing route between berths.
#[derive(Clone, Debug, PartialEq, Eq)]
pub struct SailEdge {
    pub between: Vec<String>,
}

} // verus!
