use bloon_sim::bloon::BloonEffect;
use bloon_sim::damage::DamageType;
use bloon_sim::map::{Position, RoadMap};
use bloon_sim::sim::Simulation;
use bloon_sim::tier::BloonTier;

fn level_one() -> Simulation {
    Simulation::new(RoadMap::get_map(1))
}

#[test]
fn blue_popped_becomes_red_in_place() {
    let mut sim = level_one();
    sim.spawn_root(BloonTier::Blue);
    let family = sim.attackers[0].bloon.bid.family;
    sim.apply_global_effect(1, None);
    let removed = sim.tick();
    assert_eq!(removed.len(), 0);
    assert_eq!(sim.attackers.len(), 1);
    let a = &sim.attackers[0];
    assert_eq!(a.bloon.tier, BloonTier::Red);
    assert_eq!(a.bloon.hp, 1);
    assert_eq!(a.bloon.bid.family, family);
    // a sole child carries its parent's exact path and depth
    assert_eq!(a.bloon.bid.layer, 0);
    assert_eq!(a.bloon.bid.tree, 0);
    // it keeps the road position the Blue had reached (one step of 140)
    assert_eq!(a.re.target_node, 1);
    assert_eq!(a.re.road_pos, 140);
    assert_eq!(a.re.velocity, 100);
}

#[test]
fn purple_popped_splits_into_staggered_pinks() {
    let mut sim = level_one();
    sim.spawn_root(BloonTier::Purple);
    let family = sim.attackers[0].bloon.bid.family;
    sim.apply_global_effect(1, None);
    let removed = sim.tick();
    assert_eq!(removed.len(), 0);
    assert_eq!(sim.attackers.len(), 2);
    let first = &sim.attackers[0];
    let second = &sim.attackers[1];
    assert_eq!(first.bloon.tier, BloonTier::Pink);
    assert_eq!(second.bloon.tier, BloonTier::Pink);
    // the original entity became sibling 0 and kept its road position
    // (one step of 300); one bit of lineage was consumed
    assert_eq!(first.re.road_pos, 300);
    assert_eq!(first.bloon.bid.layer, 1);
    assert_eq!(first.bloon.bid.tree, 0);
    // sibling 1 was staggered forward by the fixed offset
    assert_eq!(second.re.road_pos, 300 + 13500);
    assert_eq!(second.bloon.bid.layer, 1);
    assert_eq!(second.bloon.bid.tree, 1);
    assert_eq!(first.bloon.bid.family, family);
    assert_eq!(second.bloon.bid.family, family);
    assert_eq!(first.re.velocity, 350);
    assert_eq!(second.re.velocity, 350);
}

#[test]
fn pierce_limits_hits_and_consumes_the_source() {
    let mut sim = level_one();
    sim.spawn_root(BloonTier::Red);
    sim.spawn_root(BloonTier::Red);
    sim.spawn_root(BloonTier::Red);
    let start = sim.map.start_pos();
    sim.add_source(1, 2, 0, 0, 100000, start);
    let removed = sim.tick();
    // pierce 2 against three distinct families: exactly two hits, both
    // fatal for a Red, and the source is consumed at pierce zero
    assert_eq!(removed.len(), 2);
    assert_eq!(sim.attackers.len(), 1);
    assert_eq!(sim.attackers[0].bloon.hp, 1);
    assert_eq!(sim.sources.len(), 0);
}

#[test]
fn zero_pierce_source_is_inert() {
    let mut sim = level_one();
    sim.spawn_root(BloonTier::Red);
    let start = sim.map.start_pos();
    sim.add_source(1, 0, 0, 0, 100000, start);
    let removed = sim.tick();
    assert_eq!(removed.len(), 0);
    assert_eq!(sim.attackers[0].bloon.hp, 1);
    // never produces a hit, and is not removed either
    assert_eq!(sim.sources.len(), 1);
    assert_eq!(sim.sources[0].dealer.pierce, 0);
}

#[test]
fn descendants_of_a_hit_bloon_are_not_rehit() {
    let mut sim = level_one();
    sim.spawn_root(BloonTier::Purple);
    let start = sim.map.start_pos();
    sim.add_source(1, 3, 0, 0, 150000, start);
    sim.tick();
    // the Purple was hit once and split into two Pinks of the same family
    assert_eq!(sim.attackers.len(), 2);
    assert_eq!(sim.sources[0].dealer.pierce, 2);
    assert_eq!(sim.sources[0].dealer.hit_bloons.len(), 1);
    let removed = sim.tick();
    // on the later tick the source's hit list holds the Pinks' ancestor,
    // whose path is a prefix of theirs: neither descendant is re-hit
    assert_eq!(removed.len(), 0);
    assert_eq!(sim.attackers.len(), 2);
    assert_eq!(sim.attackers[0].bloon.hp, 1);
    assert_eq!(sim.attackers[1].bloon.hp, 1);
    assert_eq!(sim.sources[0].dealer.pierce, 2);
}

#[test]
fn exclusion_masks_protect_resistant_attackers() {
    let mut sim = level_one();
    sim.spawn_root(BloonTier::Lead);
    let start = sim.map.start_pos();
    let cannot_pop = DamageType::Sharp.to_modifier_mask();
    sim.add_source(1, 1, cannot_pop, 0, 100000, start);
    let removed = sim.tick();
    // sharp damage cannot touch the lead class
    assert_eq!(removed.len(), 0);
    assert_eq!(sim.attackers.len(), 1);
    assert_eq!(sim.attackers[0].bloon.hp, 1);
    assert_eq!(sim.sources[0].dealer.pierce, 1);
}

#[test]
fn global_effect_reaches_every_alive_attacker() {
    let mut sim = level_one();
    sim.spawn_root(BloonTier::Red);
    sim.spawn_root(BloonTier::Blue);
    sim.apply_global_effect(1, None);
    let removed = sim.tick();
    // the Red dies outright, the Blue becomes a Red
    assert_eq!(removed.len(), 1);
    assert_eq!(sim.attackers.len(), 1);
    assert_eq!(sim.attackers[0].bloon.tier, BloonTier::Red);
}

#[test]
fn global_effect_carries_status_effects() {
    let mut sim = level_one();
    sim.spawn_root(BloonTier::Red);
    let effect = BloonEffect::Weakness { strength: 2, duration: 5 };
    sim.apply_global_effect(0, Some(effect));
    sim.tick();
    assert_eq!(sim.attackers.len(), 1);
    assert_eq!(sim.attackers[0].bloon.hp, 1);
    assert_eq!(sim.attackers[0].bloon.effects, vec![effect]);
}

#[test]
fn overkill_tick_flattens_ceramic_to_pinks() {
    let mut sim = level_one();
    sim.spawn_root(BloonTier::Ceramic);
    // base health 10 hit for 13 in one tick: overkill magnitude 3
    sim.apply_global_effect(13, None);
    let removed = sim.tick();
    assert_eq!(removed.len(), 0);
    assert_eq!(sim.attackers.len(), 16);
    assert!(sim.attackers.iter().all(|a| a.bloon.tier == BloonTier::Pink));
}

#[test]
fn destroyed_blimp_splits_through_live_recursion() {
    let mut sim = level_one();
    sim.spawn_root(BloonTier::MOAB);
    let family = sim.attackers[0].bloon.bid.family;
    // exactly the MOAB's health: no overkill, four Ceramics emerge
    sim.apply_global_effect(200, None);
    let removed = sim.tick();
    assert_eq!(removed.len(), 0);
    assert_eq!(sim.attackers.len(), 4);
    for (i, a) in sim.attackers.iter().enumerate() {
        assert_eq!(a.bloon.tier, BloonTier::Ceramic);
        assert_eq!(a.bloon.hp, 10);
        assert_eq!(a.bloon.bid.family, family);
        // four siblings consume two path bits
        assert_eq!(a.bloon.bid.layer, 2);
        assert_eq!(a.bloon.bid.tree, i as u32);
    }
}

#[test]
fn small_overkill_consumes_a_blimps_children() {
    let mut sim = level_one();
    sim.spawn_root(BloonTier::MOAB);
    // overkill magnitude 5 leaves each Ceramic at positive health: under
    // pure overkill semantics nothing is produced at all
    sim.apply_global_effect(205, None);
    let removed = sim.tick();
    assert_eq!(removed.len(), 1);
    assert_eq!(sim.attackers.len(), 0);
}

#[test]
fn attackers_completing_the_road_are_removed() {
    let mut path: Vec<Position> = Vec::new();
    path.push(Position { x: 0, y: 0 });
    path.push(Position { x: 100, y: 0 });
    let mut cumulative_dist: Vec<i64> = Vec::new();
    cumulative_dist.push(0);
    cumulative_dist.push(100);
    let mut sim = Simulation::new(RoadMap { path, cumulative_dist });
    sim.spawn_root(BloonTier::Red);
    let removed1 = sim.tick();
    assert_eq!(removed1.len(), 0);
    // the Red (speed 100) reaches the final waypoint on the first tick and
    // exits terminally on the second
    let removed2 = sim.tick();
    assert_eq!(removed2.len(), 1);
    assert_eq!(sim.attackers.len(), 0);
}
