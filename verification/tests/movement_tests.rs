use bloon_sim::map::{Position, RoadMap};
use bloon_sim::movement::{advance_move_along_road, MoveAlongRoad};

fn fresh_progress(map: &RoadMap, velocity: i64) -> (MoveAlongRoad, Position) {
    let start = map.start_pos();
    (
        MoveAlongRoad { target_node: 0, road_pos: 0, waypoint: start, velocity },
        start,
    )
}

#[test]
fn partial_step_interpolates_exactly() {
    let map = RoadMap::get_map(1);
    let (mut re, mut pos) = fresh_progress(&map, 100);
    // half of the first segment: 60374 of 120748 units
    advance_move_along_road(60374, &map, &mut re, &mut pos);
    assert_eq!(re.target_node, 1);
    assert_eq!(re.road_pos, 60374);
    assert_eq!(pos, Position { x: -81000, y: 0 });
}

#[test]
fn step_crosses_multiple_waypoints() {
    let map = RoadMap::get_map(1);
    let (mut re, mut pos) = fresh_progress(&map, 100);
    // past waypoint 1 (at 120748) into the second segment
    advance_move_along_road(150748, &map, &mut re, &mut pos);
    assert_eq!(re.target_node, 2);
    assert_eq!(re.road_pos, 150748);
    // 30000 units into the horizontal segment from (-54000, 54000)
    assert_eq!(pos, Position { x: -24000, y: 54000 });
}

#[test]
fn overshoot_reaches_terminal_in_one_call() {
    let map = RoadMap::get_map(1);
    let (mut re, mut pos) = fresh_progress(&map, 100);
    // larger than the whole road (349496 units): terminal after one call
    advance_move_along_road(400000, &map, &mut re, &mut pos);
    assert_eq!(re.target_node, map.path.len());
    assert_eq!(re.waypoint, Position { x: i64::MAX, y: i64::MAX });
    // the entity snapped onto the final waypoint on the way out
    assert_eq!(pos, Position { x: 108000, y: 162000 });
}

#[test]
fn terminal_progress_never_moves_again() {
    let map = RoadMap::get_map(1);
    let (mut re, mut pos) = fresh_progress(&map, 100);
    advance_move_along_road(400000, &map, &mut re, &mut pos);
    let frozen = pos;
    advance_move_along_road(5000, &map, &mut re, &mut pos);
    assert_eq!(pos, frozen);
    assert_eq!(re.target_node, map.path.len());
}

#[test]
fn clone_with_velocity_keeps_progress() {
    let map = RoadMap::get_map(1);
    let (re, _) = fresh_progress(&map, 100);
    let quicker = re.clone_with_velocity(350);
    assert_eq!(quicker.target_node, re.target_node);
    assert_eq!(quicker.road_pos, re.road_pos);
    assert_eq!(quicker.waypoint, re.waypoint);
    assert_eq!(quicker.velocity, 350);
}

#[test]
fn other_levels_are_empty() {
    let map = RoadMap::get_map(2);
    assert_eq!(map.path.len(), 0);
    assert_eq!(map.cumulative_dist.len(), 0);
}
