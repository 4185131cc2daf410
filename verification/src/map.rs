//! The path: an ordered sequence of waypoint positions plus the cumulative
//! distance from the start to each waypoint. Immutable after load and shared
//! read-only by all attacker movement.
//!
//! All coordinates and distances are integers; one world pixel is 540
//! distance units. The cumulative distances are part of the loaded data and
//! are assumed consistent with the waypoint geometry (validated at load
//! time, not per tick).

use vstd::prelude::*;

verus! {

/// Coordinate bound every waypoint (and hence every attacker position)
/// stays within.
pub const COORD_LIMIT: i64 = 0x40_0000;

/// Bound on every cumulative path distance.
pub const DIST_LIMIT: i64 = 0x1000_0000;

/// Largest single movement step the path accepts in one call.
pub const STEP_LIMIT: i64 = 0x4000_0000;

/// A point of the world, in distance units.
#[derive(PartialEq, Eq, Structural, Clone, Copy, Debug)]
pub struct Position {
    pub x: i64,
    pub y: i64,
}

/// A position within the coordinate bound.
pub open spec fn position_wf(p: Position) -> bool {
    &&& -COORD_LIMIT <= p.x <= COORD_LIMIT
    &&& -COORD_LIMIT <= p.y <= COORD_LIMIT
}

/// The road attackers travel: waypoints and cumulative distances.
#[derive(Clone, Debug)]
pub struct RoadMap {
    /// Waypoint positions, in travel order.
    pub path: Vec<Position>,
    /// Distance along the road from waypoint 0 to waypoint `i`.
    pub cumulative_dist: Vec<i64>,
}

/// A well-formed map: one cumulative distance per waypoint, starting at
/// zero, non-decreasing and bounded, with every waypoint inside the
/// coordinate bound.
pub open spec fn map_wf(m: RoadMap) -> bool {
    &&& m.path@.len() == m.cumulative_dist@.len()
    &&& forall|i: int| 0 <= i < m.path@.len() ==> position_wf(#[trigger] m.path@[i])
    &&& forall|i: int|
        0 <= i < m.cumulative_dist@.len() ==> 0 <= #[trigger] m.cumulative_dist@[i] <= DIST_LIMIT
    &&& forall|i: int|
        0 <= i < m.cumulative_dist@.len() - 1 ==> #[trigger] m.cumulative_dist@[i]
            <= m.cumulative_dist@[i + 1]
    &&& (m.cumulative_dist@.len() > 0 ==> m.cumulative_dist@[0] == 0)
}

impl RoadMap {
    /// The built-in levels. Level 1 is a four-waypoint road; any other
    /// level is an empty map.
    pub fn get_map(level: i32) -> (r: RoadMap)
        ensures
            map_wf(r),
            level == 1 ==> r.path@ == seq![
                Position { x: -108000int as i64, y: -54000int as i64 },
                Position { x: -54000int as i64, y: 54000int as i64 },
                Position { x: 54000int as i64, y: 54000int as i64 },
                Position { x: 108000int as i64, y: 162000int as i64 },
            ] && r.cumulative_dist@ == seq![0i64, 120748i64, 228748i64, 349496i64],
            level != 1 ==> r.path@.len() == 0 && r.cumulative_dist@.len() == 0,
    {
        if level == 1 {
            let mut path: Vec<Position> = Vec::new();
            path.push(Position { x: -108000, y: -54000 });
            path.push(Position { x: -54000, y: 54000 });
            path.push(Position { x: 54000, y: 54000 });
            path.push(Position { x: 108000, y: 162000 });
            let mut cumulative_dist: Vec<i64> = Vec::new();
            cumulative_dist.push(0);
            cumulative_dist.push(120748);
            cumulative_dist.push(228748);
            cumulative_dist.push(349496);
            let r = RoadMap { path, cumulative_dist };
            proof {
                assert(r.path@ =~= seq![
                    Position { x: -108000int as i64, y: -54000int as i64 },
                    Position { x: -54000int as i64, y: 54000int as i64 },
                    Position { x: 54000int as i64, y: 54000int as i64 },
                    Position { x: 108000int as i64, y: 162000int as i64 },
                ]);
                assert(r.cumulative_dist@ =~= seq![0i64, 120748i64, 228748i64, 349496i64]);
            }
            r
        } else {
            RoadMap { path: Vec::new(), cumulative_dist: Vec::new() }
        }
    }

    /// The starting location of the road.
    pub fn start_pos(&self) -> (r: Position)
        requires
            self.path@.len() > 0,
        ensures
            r == self.path@[0],
    {
        self.path[0]
    }
}

} // verus!
