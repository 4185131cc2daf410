//! Path movement: advancing an entity along the waypoint road by a distance
//! step, crossing as many waypoints as the step covers in a single call.
//!
//! When the remaining distance to the current target waypoint is smaller
//! than the step, the entity snaps exactly onto the waypoint, the target
//! index advances, and the leftover distance carries into the next segment.
//! Once the target index reaches the end of the waypoint list the progress
//! is terminal — the cached waypoint becomes an out-of-bounds sentinel and
//! no further movement occurs.

use crate::map::{
    map_wf, position_wf, RoadMap, Position, COORD_LIMIT, DIST_LIMIT, STEP_LIMIT,
};
use vstd::arithmetic::div_mod::{
    lemma_div_by_multiple, lemma_div_is_ordered, lemma_div_pos_is_pos,
};
use vstd::arithmetic::mul::lemma_mul_inequality;
use vstd::prelude::*;

verus! {

/// Movement state of an entity travelling along the road.
#[derive(PartialEq, Eq, Structural, Clone, Copy, Debug)]
pub struct MoveAlongRoad {
    /// Index of the waypoint currently steered toward; equal to the path
    /// length once the road is complete (terminal).
    pub target_node: usize,
    /// Distance travelled along the road so far.
    pub road_pos: i64,
    /// Cached position of the target waypoint; an out-of-bounds sentinel
    /// once terminal.
    pub waypoint: Position,
    /// Distance units this entity covers per tick.
    pub velocity: i64,
}

/// The sentinel waypoint marking terminal progress: far outside every
/// well-formed map's coordinate bound.
pub open spec fn spec_sentinel() -> Position {
    Position { x: i64::MAX, y: i64::MAX }
}

/// Well-formed progress with respect to a map: the target index is within
/// (or just past) the path, the travelled distance has not overtaken the
/// target waypoint, the cached waypoint is the target's position, and the
/// velocity is an acceptable step.
pub open spec fn progress_wf(re: MoveAlongRoad, m: RoadMap) -> bool {
    &&& re.target_node <= m.path@.len()
    &&& 0 <= re.road_pos <= DIST_LIMIT
    &&& 0 <= re.velocity <= STEP_LIMIT
    &&& re.target_node < m.path@.len() ==> {
        &&& re.waypoint == m.path@[re.target_node as int]
        &&& re.road_pos <= m.cumulative_dist@[re.target_node as int]
    }
    &&& re.target_node == m.path@.len() ==> re.waypoint == spec_sentinel()
}

/// Terminal progress: the road has been completed.
pub open spec fn spec_terminal(re: MoveAlongRoad, m: RoadMap) -> bool {
    re.target_node == m.path@.len()
}

/// The component of a straight-line move of length `s` toward a point at
/// distance `r` along a displacement of `d`: `d * s / r`, rounded toward
/// zero.
pub open spec fn spec_scaled(d: int, s: int, r: int) -> int {
    if d >= 0 {
        (d * s) / r
    } else {
        -(((-d) * s) / r)
    }
}

/// What a single `advance` call computes, as a function of the map, the
/// current target index, road distance, position and step: the new target
/// index, road distance and position.
pub open spec fn spec_advance(m: RoadMap, t: int, rp: int, pos: Position, step: int) -> (
    int,
    int,
    Position,
)
    decreases m.path@.len() - t,
{
    let len = m.path@.len() as int;
    if t < 0 || t >= len || step <= 0 {
        (t, rp, pos)
    } else {
        let rem = m.cumulative_dist@[t] - rp;
        if rem < step {
            spec_advance(m, t + 1, m.cumulative_dist@[t] as int, m.path@[t], step - rem)
        } else {
            (
                t,
                rp + step,
                Position {
                    x: (pos.x + spec_scaled(m.path@[t].x - pos.x, step, rem)) as i64,
                    y: (pos.y + spec_scaled(m.path@[t].y - pos.y, step, rem)) as i64,
                },
            )
        }
    }
}

/// A partial move toward a point never overshoots it: the scaled component
/// lies between zero and the full displacement.
proof fn lemma_scaled_bounded(d: int, s: int, r: int)
    requires
        0 < r,
        0 <= s <= r,
    ensures
        d >= 0 ==> 0 <= spec_scaled(d, s, r) <= d,
        d < 0 ==> d <= spec_scaled(d, s, r) <= 0,
{
    if d >= 0 {
        lemma_mul_inequality(s, r, d);
        lemma_div_is_ordered(d * s, d * r, r);
        lemma_div_by_multiple(d, r);
        lemma_div_pos_is_pos(d * s, r);
        assert(d * s == s * d && d * r == r * d) by (nonlinear_arith);
        assert(d * s >= 0) by (nonlinear_arith)
            requires
                d >= 0 && s >= 0,
        ;
    } else {
        let e = -d;
        lemma_mul_inequality(s, r, e);
        lemma_div_is_ordered(e * s, e * r, r);
        lemma_div_by_multiple(e, r);
        lemma_div_pos_is_pos(e * s, r);
        assert(e * s == s * e && e * r == r * e) by (nonlinear_arith);
        assert(e * s >= 0) by (nonlinear_arith)
            requires
                e >= 0 && s >= 0,
        ;
    }
}

/// Executable scaled displacement component.
fn scaled_toward(d: i64, s: i64, r: i64) -> (v: i64)
    requires
        0 < r <= DIST_LIMIT,
        0 <= s <= r,
        -2 * COORD_LIMIT <= d <= 2 * COORD_LIMIT,
    ensures
        v == spec_scaled(d as int, s as int, r as int),
        d >= 0 ==> 0 <= v <= d,
        d < 0 ==> d <= v <= 0,
{
    proof {
        lemma_scaled_bounded(d as int, s as int, r as int);
        assert(-0x20_0000_0000_0000 <= d * s <= 0x20_0000_0000_0000) by (nonlinear_arith)
            requires
                -0x80_0000 <= d <= 0x80_0000 && 0 <= s <= 0x1000_0000,
        ;
        assert(-0x20_0000_0000_0000 <= (-d) * s <= 0x20_0000_0000_0000) by (nonlinear_arith)
            requires
                -0x80_0000 <= d <= 0x80_0000 && 0 <= s <= 0x1000_0000,
        ;
    }
    if d >= 0 {
        (d * s) / r
    } else {
        -(((-d) * s) / r)
    }
}

impl MoveAlongRoad {
    /// This progress state with the velocity replaced — used when a split
    /// hands the road position on to a descendant of a different tier.
    pub fn clone_with_velocity(&self, new_velocity: i64) -> (r: Self)
        ensures
            r.target_node == self.target_node,
            r.road_pos == self.road_pos,
            r.waypoint == self.waypoint,
            r.velocity == new_velocity,
    {
        let mut to_ret = *self;
        to_ret.velocity = new_velocity;
        to_ret
    }
}

/// Advance an entity along the road by `step` distance units, crossing as
/// many waypoints as the step covers; once the final waypoint is reached
/// the progress becomes terminal and movement stops.
pub fn advance_move_along_road(step: i64, map: &RoadMap, re: &mut MoveAlongRoad, pos: &mut Position)
    requires
        map_wf(*map),
        0 <= step <= STEP_LIMIT,
        progress_wf(*old(re), *map),
        position_wf(*old(pos)),
    ensures
        progress_wf(*final(re), *map),
        position_wf(*final(pos)),
        final(re).velocity == old(re).velocity,
        ({
            let (t2, rp2, pos2) = spec_advance(
                *map,
                old(re).target_node as int,
                old(re).road_pos as int,
                *old(pos),
                step as int,
            );
            &&& final(re).target_node == t2
            &&& final(re).road_pos == rp2
            &&& *final(pos) == pos2
        }),
        spec_terminal(*final(re), *map) ==> final(re).waypoint == spec_sentinel(),
{
    let ghost m = *map;
    let ghost t0 = re.target_node as int;
    let ghost rp0 = re.road_pos as int;
    let ghost pos0 = *pos;
    let ghost s0 = step as int;
    let len = map.path.len();
    let mut t: usize = re.target_node;
    let mut rp: i64 = re.road_pos;
    let mut wp: Position = re.waypoint;
    let mut p: Position = *pos;
    let mut s: i64 = step;
    while t < len && s > 0
        invariant
            map_wf(m),
            m == *map,
            len == m.path@.len(),
            t <= len,
            0 <= rp <= DIST_LIMIT,
            0 <= s <= STEP_LIMIT,
            t < len ==> wp == m.path@[t as int],
            t < len ==> rp <= m.cumulative_dist@[t as int],
            t >= len ==> wp == spec_sentinel(),
            position_wf(p),
            spec_advance(m, t0, rp0, pos0, s0) == spec_advance(m, t as int, rp as int, p, s as int),
        decreases len - t, s,
    {
        let rem: i64 = map.cumulative_dist[t] - rp;
        if rem < s {
            p = wp;
            rp = map.cumulative_dist[t];
            t = t + 1;
            if t < len {
                wp = map.path[t];
            } else {
                wp = Position { x: i64::MAX, y: i64::MAX };
            }
            s = s - rem;
        } else {
            let dx = wp.x - p.x;
            let dy = wp.y - p.y;
            let mx = scaled_toward(dx, s, rem);
            let my = scaled_toward(dy, s, rem);
            p = Position { x: p.x + mx, y: p.y + my };
            rp = rp + s;
            s = 0;
        }
    }
    re.target_node = t;
    re.road_pos = rp;
    re.waypoint = wp;
    *pos = p;
}

/// The cumulative distances never decrease along the road.
proof fn lemma_cum_monotone(m: RoadMap, i: int, j: int)
    requires
        map_wf(m),
        0 <= i <= j < m.cumulative_dist@.len(),
    ensures
        m.cumulative_dist@[i] <= m.cumulative_dist@[j],
    decreases j - i,
{
    if i < j {
        lemma_cum_monotone(m, i + 1, j);
    }
}

/// A step larger than everything that remains of the road completes it in
/// one call: if the step strictly exceeds the distance from the current
/// road position to the final waypoint, a single advance ends terminal.
pub proof fn lemma_overshoot_reaches_terminal(m: RoadMap, t: int, rp: int, pos: Position, step: int)
    requires
        map_wf(m),
        m.path@.len() > 0,
        0 <= t <= m.path@.len(),
        0 <= rp,
        t < m.path@.len() ==> rp <= m.cumulative_dist@[t],
        step > m.cumulative_dist@[m.path@.len() - 1] - rp,
    ensures
        spec_advance(m, t, rp, pos, step).0 == m.path@.len(),
    decreases m.path@.len() - t,
{
    let len = m.path@.len() as int;
    if t >= len {
    } else {
        lemma_cum_monotone(m, t, len - 1);
        let rem = m.cumulative_dist@[t] - rp;
        assert(rem < step);
        lemma_overshoot_reaches_terminal(
            m,
            t + 1,
            m.cumulative_dist@[t] as int,
            m.path@[t],
            step - rem,
        );
    }
}

} // verus!
