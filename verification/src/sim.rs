//! The tick pipeline: movement, collision detection, damage application,
//! split/replace, and terminal removal, in that strict order.
//!
//! Attackers and damage sources live in plain collections; each phase is a
//! function whose contract pins its effect exactly, stated over
//! mathematical views of the entities.

use crate::bloon::{Bloon, BloonView};
use crate::damage::{
    hitbox_wf, HitboxSimple, RADIUS_LIMIT,
};
use crate::damage::{DamageDealer, DealerView};
use crate::lineage::id_wf;
use crate::map::{map_wf, position_wf, Position, RoadMap, STEP_LIMIT};
use crate::movement::{
    advance_move_along_road, progress_wf, spec_advance, spec_sentinel, MoveAlongRoad,
};
use crate::tier::{spec_base_speed, spec_hitbox_radius, BloonTier};
use vstd::prelude::*;

verus! {

/// An attacker as the tick pipeline sees it: the bloon data, its road
/// progress, its hitbox and its world position.
pub struct AttackerEntity {
    pub bloon: Bloon,
    pub re: MoveAlongRoad,
    pub hitbox: HitboxSimple,
    pub pos: Position,
}

/// Mathematical view of an attacker entity.
pub ghost struct AttackerView {
    pub bloon: BloonView,
    pub re: MoveAlongRoad,
    pub hitbox: HitboxSimple,
    pub pos: Position,
}

impl View for AttackerEntity {
    type V = AttackerView;

    open spec fn view(&self) -> AttackerView {
        AttackerView { bloon: self.bloon@, re: self.re, hitbox: self.hitbox, pos: self.pos }
    }
}

/// A damage source as the tick pipeline sees it: the damage dealer, its
/// hitbox, its world position, and whether it has been consumed.
pub struct SourceEntity {
    pub dealer: DamageDealer,
    pub hitbox: HitboxSimple,
    pub pos: Position,
    pub removed: bool,
}

/// Mathematical view of a damage source entity.
pub ghost struct SourceView {
    pub dealer: DealerView,
    pub hitbox: HitboxSimple,
    pub pos: Position,
    pub removed: bool,
}

impl View for SourceEntity {
    type V = SourceView;

    open spec fn view(&self) -> SourceView {
        SourceView {
            dealer: self.dealer@,
            hitbox: self.hitbox,
            pos: self.pos,
            removed: self.removed,
        }
    }
}

/// The views of a sequence of attacker entities.
pub open spec fn attacker_views(s: Seq<AttackerEntity>) -> Seq<AttackerView> {
    s.map_values(|a: AttackerEntity| a@)
}

/// The views of a sequence of source entities.
pub open spec fn source_views(s: Seq<SourceEntity>) -> Seq<SourceView> {
    s.map_values(|a: SourceEntity| a@)
}

/// A well-formed attacker: its lineage identity, road progress, position
/// and hitbox are all within their bounds.
pub open spec fn attacker_wf(a: AttackerView, m: RoadMap) -> bool {
    &&& id_wf(a.bloon.bid)
    &&& progress_wf(a.re, m)
    &&& position_wf(a.pos)
    &&& hitbox_wf(a.hitbox)
}

/// A well-formed damage source.
pub open spec fn source_wf(s: SourceView) -> bool {
    &&& crate::damage::dealer_wf(s.dealer)
    &&& hitbox_wf(s.hitbox)
    &&& position_wf(s.pos)
}

/// All attackers of a collection are well-formed.
pub open spec fn attackers_wf(s: Seq<AttackerView>, m: RoadMap) -> bool {
    forall|j: int| 0 <= j < s.len() ==> attacker_wf(#[trigger] s[j], m)
}

/// All sources of a collection are well-formed.
pub open spec fn sources_wf(s: Seq<SourceView>) -> bool {
    forall|j: int| 0 <= j < s.len() ==> source_wf(#[trigger] s[j])
}

/// Every catalog speed is an acceptable per-tick step.
pub proof fn lemma_speed_in_step_range(t: BloonTier)
    ensures
        0 <= spec_base_speed(t) <= STEP_LIMIT,
{
}

/// Every catalog hitbox radius is within the radius bound.
pub proof fn lemma_radius_in_range(t: BloonTier)
    ensures
        0 <= spec_hitbox_radius(t) <= RADIUS_LIMIT,
{
}

/// A fresh root attacker of the given tier at the start of the road.
pub fn create_bloon(tier: BloonTier, map: &RoadMap) -> (r: AttackerEntity)
    requires
        map_wf(*map),
        map.path@.len() > 0,
    ensures
        attacker_wf(r@, *map),
        r.bloon.tier == tier,
        r.bloon.bid.layer == 0,
        r.bloon.bid.tree == 0,
        r.bloon.modifiers == crate::bloon::spec_spawn_modifiers(tier, 0),
        r.bloon.hp == crate::bloon::spec_spawn_hp(tier, r.bloon.modifiers),
        r.bloon.effects@.len() == 0,
        r.re == (MoveAlongRoad {
            target_node: 0,
            road_pos: 0,
            waypoint: map.path@[0],
            velocity: spec_base_speed(tier) as i64,
        }),
        r.pos == map.path@[0],
        r.hitbox.radius == spec_hitbox_radius(tier),
{
    let bloon = Bloon::with(tier, 0);
    let start = map.start_pos();
    proof {
        lemma_speed_in_step_range(tier);
        lemma_radius_in_range(tier);
    }
    AttackerEntity {
        bloon,
        re: MoveAlongRoad {
            target_node: 0,
            road_pos: 0,
            waypoint: start,
            velocity: tier.get_base_speed(),
        },
        hitbox: HitboxSimple { radius: tier.get_base_hitbox_radius() },
        pos: start,
    }
}

/// The view an attacker has after one movement step of its own velocity.
pub open spec fn spec_move_one(m: RoadMap, a: AttackerView) -> AttackerView {
    let (t2, rp2, p2) = spec_advance(
        m,
        a.re.target_node as int,
        a.re.road_pos as int,
        a.pos,
        a.re.velocity as int,
    );
    AttackerView {
        bloon: a.bloon,
        re: MoveAlongRoad {
            target_node: t2 as usize,
            road_pos: rp2 as i64,
            waypoint: if t2 < m.path@.len() {
                m.path@[t2]
            } else {
                spec_sentinel()
            },
            velocity: a.re.velocity,
        },
        hitbox: a.hitbox,
        pos: p2,
    }
}

/// The whole collection after the movement phase.
pub open spec fn spec_moved(m: RoadMap, s: Seq<AttackerView>) -> Seq<AttackerView> {
    s.map_values(|a: AttackerView| spec_move_one(m, a))
}

/// Movement phase: advance every attacker along the road by its velocity.
pub fn move_along_road(map: &RoadMap, attackers: &mut Vec<AttackerEntity>)
    requires
        map_wf(*map),
        attackers_wf(attacker_views(old(attackers)@), *map),
    ensures
        attacker_views(final(attackers)@) == spec_moved(*map, attacker_views(old(attackers)@)),
        attackers_wf(attacker_views(final(attackers)@), *map),
{
    let ghost vs0 = attacker_views(old(attackers)@);
    let n = attackers.len();
    let mut j: usize = 0;
    while j < n
        invariant
            map_wf(*map),
            n == attackers@.len(),
            vs0 == attacker_views(old(attackers)@),
            attackers_wf(vs0, *map),
            vs0.len() == n,
            j <= n,
            forall|k: int| j <= k < n ==> attackers@[k]@ == vs0[k],
            forall|k: int|
                0 <= k < j ==> #[trigger] attackers@[k]@ == spec_move_one(*map, vs0[k]),
            forall|k: int|
                0 <= k < j ==> attacker_wf(#[trigger] attackers@[k]@, *map),
        decreases n - j,
    {
        proof {
            assert(attackers@[j as int]@ == vs0[j as int]);
            assert(attacker_wf(vs0[j as int], *map));
        }
        let mut re = attackers[j].re;
        let mut pos = attackers[j].pos;
        let step = re.velocity;
        advance_move_along_road(step, map, &mut re, &mut pos);
        let mut a = attackers.remove(j);
        a.re = re;
        a.pos = pos;
        attackers.insert(j, a);
        proof {
            assert(attackers@[j as int]@ == spec_move_one(*map, vs0[j as int]));
            assert(attacker_wf(attackers@[j as int]@, *map));
        }
        j = j + 1;
    }
    proof {
        assert(attacker_views(attackers@) =~= spec_moved(*map, vs0));
    }
}

/// Terminal-removal phase: take out every attacker whose road progress has
/// reached the end of the path. Returns the removed attackers, in order.
pub open spec fn spec_survivors(m: RoadMap, s: Seq<AttackerView>, k: int) -> Seq<AttackerView>
    decreases k,
{
    if k <= 0 {
        Seq::empty()
    } else {
        spec_survivors(m, s, k - 1) + (if s[k - 1].re.target_node == m.path@.len() {
            Seq::empty()
        } else {
            seq![s[k - 1]]
        })
    }
}

/// The attackers the terminal-removal phase takes out, in order.
pub open spec fn spec_exited(m: RoadMap, s: Seq<AttackerView>, k: int) -> Seq<AttackerView>
    decreases k,
{
    if k <= 0 {
        Seq::empty()
    } else {
        spec_exited(m, s, k - 1) + (if s[k - 1].re.target_node == m.path@.len() {
            seq![s[k - 1]]
        } else {
            Seq::empty()
        })
    }
}

/// Remove every attacker that has completed the road (its target index has
/// reached the end of the waypoint list). Returns the removed attackers.
pub fn despawn_exited_road_entities(map: &RoadMap, attackers: &mut Vec<AttackerEntity>) -> (r: Vec<
    AttackerEntity,
>)
    requires
        map_wf(*map),
    ensures
        attacker_views(final(attackers)@) == spec_survivors(
            *map,
            attacker_views(old(attackers)@),
            old(attackers)@.len() as int,
        ),
        attacker_views(r@) == spec_exited(
            *map,
            attacker_views(old(attackers)@),
            old(attackers)@.len() as int,
        ),
        attackers_wf(attacker_views(old(attackers)@), *map) ==> attackers_wf(
            attacker_views(final(attackers)@),
            *map,
        ),
{
    let ghost vs0 = attacker_views(old(attackers)@);
    let len = map.path.len();
    let mut kept: Vec<AttackerEntity> = Vec::new();
    let mut removed: Vec<AttackerEntity> = Vec::new();
    let mut j: usize = 0;
    let n_exec = attackers.len();
    let ghost n0 = n_exec as int;
    while attackers.len() > 0
        invariant
            len == map.path@.len(),
            vs0.len() == n0,
            n0 <= usize::MAX,
            j as int + attackers@.len() == n0,
            j <= n0,
            forall|k: int| 0 <= k < attackers@.len() ==> #[trigger] attackers@[k]@ == vs0[j + k],
            attacker_views(kept@) == spec_survivors(*map, vs0, j as int),
            attacker_views(removed@) == spec_exited(*map, vs0, j as int),
        decreases attackers@.len(),
    {
        let a = attackers.remove(0);
        let ghost aj = j as int;
        let ghost kept_pre = kept@;
        let ghost removed_pre = removed@;
        proof {
            assert(a@ == vs0[aj]);
        }
        if a.re.target_node == len {
            removed.push(a);
        } else {
            kept.push(a);
        }
        j = j + 1;
        proof {
            if vs0[aj].re.target_node == map.path@.len() {
                lemma_views_push(removed_pre, a);
                assert(spec_exited(*map, vs0, aj + 1) =~= attacker_views(removed_pre).push(
                    vs0[aj],
                ));
                assert(spec_survivors(*map, vs0, aj + 1) =~= spec_survivors(*map, vs0, aj));
            } else {
                lemma_views_push(kept_pre, a);
                assert(spec_survivors(*map, vs0, aj + 1) =~= attacker_views(kept_pre).push(
                    vs0[aj],
                ));
                assert(spec_exited(*map, vs0, aj + 1) =~= spec_exited(*map, vs0, aj));
            }
        }
    }
    core::mem::swap(attackers, &mut kept);
    proof {
        lemma_survivors_wf(*map, vs0, n0);
    }
    removed
}

/// Evolving state of one damage source during its collision scan.
pub ghost struct ScanState {
    pub pierce: u32,
    pub hits: Seq<crate::lineage::BloonID>,
    pub events: Seq<crate::damage::BloonDamageEvent>,
    pub removed: bool,
}

/// The scan state a source starts its collision pass with.
pub open spec fn init_scan_state(src: SourceView) -> ScanState {
    ScanState {
        pierce: src.dealer.pierce,
        hits: src.dealer.hits,
        events: Seq::empty(),
        removed: src.removed,
    }
}

/// Whether the pair (source, attacker) produces a hit: the source has not
/// yet credited a hit against the attacker's lineage, the attacker's
/// modifiers meet none of the source's exclusion masks, and the hitboxes
/// overlap.
pub open spec fn spec_target_hit(
    src: SourceView,
    hits: Seq<crate::lineage::BloonID>,
    a: AttackerView,
) -> bool {
    &&& !crate::damage::spec_has_hit(hits, a.bloon.bid)
    &&& a.bloon.modifiers & (src.dealer.cannot_pop_modifiers
        | src.dealer.cannot_target_modifiers) == 0
    &&& crate::damage::spec_overlaps(
        src.pos,
        src.hitbox.radius as int,
        a.pos,
        a.hitbox.radius as int,
    )
}

/// One source's collision scan over the attackers from index `i` on: each
/// hit queues a damage event, appends the attacker's lineage identity to
/// the hit list and decrements the pierce; at pierce zero the source is
/// marked removed and the scan stops.
pub open spec fn spec_scan(
    src: SourceView,
    attackers: Seq<AttackerView>,
    st: ScanState,
    i: int,
) -> ScanState
    decreases attackers.len() - i,
{
    if i < 0 || i >= attackers.len() || st.pierce == 0 {
        st
    } else {
        let a = attackers[i];
        if spec_target_hit(src, st.hits, a) {
            let p2 = (st.pierce - 1) as u32;
            let st2 = ScanState {
                pierce: p2,
                hits: st.hits.push(a.bloon.bid),
                events: st.events.push(
                    crate::damage::BloonDamageEvent {
                        damage: src.dealer.damage,
                        status_effect: None,
                        bloon: i as usize,
                    },
                ),
                removed: st.removed || p2 == 0,
            };
            spec_scan(src, attackers, st2, i + 1)
        } else {
            spec_scan(src, attackers, st, i + 1)
        }
    }
}

/// Run one damage source's collision scan over the attacker snapshot,
/// queueing its damage events. The source's pierce, hit list and removed
/// mark come back exactly as the scan semantics dictates; its damage,
/// exclusion masks, hitbox and position are untouched.
fn scan_source(src: SourceEntity, attackers: &Vec<AttackerEntity>) -> (r: (
    SourceEntity,
    Vec<crate::damage::BloonDamageEvent>,
))
    requires
        forall|j: int|
            0 <= j < attackers@.len() ==> position_wf(#[trigger] attackers@[j]@.pos) && hitbox_wf(
                attackers@[j]@.hitbox,
            ),
        position_wf(src@.pos),
        hitbox_wf(src@.hitbox),
    ensures
        ({
            let stf = spec_scan(src@, attacker_views(attackers@), init_scan_state(src@), 0);
            &&& r.0.dealer.pierce == stf.pierce
            &&& r.0.dealer.hit_bloons@ == stf.hits
            &&& r.1@ == stf.events
            &&& r.0.removed == stf.removed
            &&& r.0.dealer.damage == src.dealer.damage
            &&& r.0.dealer.cannot_pop_modifiers == src.dealer.cannot_pop_modifiers
            &&& r.0.dealer.cannot_target_modifiers == src.dealer.cannot_target_modifiers
            &&& r.0.hitbox == src.hitbox
            &&& r.0.pos == src.pos
        }),
{
    let ghost src0 = src@;
    let ghost vs = attacker_views(attackers@);
    let ghost st0 = init_scan_state(src@);
    let mut s = src;
    let mut events: Vec<crate::damage::BloonDamageEvent> = Vec::new();
    let n = attackers.len();
    let cannot = s.dealer.cannot_pop_modifiers | s.dealer.cannot_target_modifiers;
    let mut i: usize = 0;
    while i < n && s.dealer.pierce > 0
        invariant
            n == attackers@.len(),
            vs == attacker_views(attackers@),
            vs.len() == n,
            forall|j: int|
                0 <= j < attackers@.len() ==> position_wf(#[trigger] attackers@[j]@.pos)
                    && hitbox_wf(attackers@[j]@.hitbox),
            i <= n,
            cannot == src0.dealer.cannot_pop_modifiers | src0.dealer.cannot_target_modifiers,
            s.dealer.damage == src0.dealer.damage,
            s.dealer.cannot_pop_modifiers == src0.dealer.cannot_pop_modifiers,
            s.dealer.cannot_target_modifiers == src0.dealer.cannot_target_modifiers,
            s.hitbox == src0.hitbox,
            s.pos == src0.pos,
            position_wf(src0.pos),
            hitbox_wf(src0.hitbox),
            spec_scan(src0, vs, st0, 0) == spec_scan(
                src0,
                vs,
                ScanState {
                    pierce: s.dealer.pierce,
                    hits: s.dealer.hit_bloons@,
                    events: events@,
                    removed: s.removed,
                },
                i as int,
            ),
        decreases n - i,
    {
        proof {
            assert(attackers@[i as int]@ == vs[i as int]);
        }
        let a = &attackers[i];
        let lineage_blocked = s.dealer.has_hit(&a.bloon.bid);
        let excluded = (a.bloon.modifiers & cannot) != 0;
        let overlap = crate::damage::hitboxes_overlap(
            &s.pos,
            s.hitbox.radius,
            &a.pos,
            a.hitbox.radius,
        );
        if !lineage_blocked && !excluded && overlap {
            events.push(
                crate::damage::BloonDamageEvent {
                    damage: s.dealer.damage,
                    status_effect: None,
                    bloon: i,
                },
            );
            s.dealer.hit_bloons.push(a.bloon.bid);
            s.dealer.pierce = s.dealer.pierce - 1;
            if s.dealer.pierce == 0 {
                s.removed = true;
            }
        }
        i = i + 1;
    }
    (s, events)
}

/// The damage events all sources up to index `k` queue, in source order.
pub open spec fn spec_all_events(
    srcs: Seq<SourceView>,
    attackers: Seq<AttackerView>,
    k: int,
) -> Seq<crate::damage::BloonDamageEvent>
    decreases k,
{
    if k <= 0 {
        Seq::empty()
    } else {
        spec_all_events(srcs, attackers, k - 1) + spec_scan(
            srcs[k - 1],
            attackers,
            init_scan_state(srcs[k - 1]),
            0,
        ).events
    }
}

/// Collision phase: every damage source scans the stable attacker
/// snapshot in turn, queueing damage events; each source only reads the
/// attackers and mutates its own pierce counter, hit list and removed
/// mark.
pub fn damage_bloons(sources: &mut Vec<SourceEntity>, attackers: &Vec<AttackerEntity>) -> (events:
    Vec<crate::damage::BloonDamageEvent>)
    requires
        forall|j: int|
            0 <= j < attackers@.len() ==> position_wf(#[trigger] attackers@[j]@.pos) && hitbox_wf(
                attackers@[j]@.hitbox,
            ),
        sources_wf(source_views(old(sources)@)),
    ensures
        final(sources)@.len() == old(sources)@.len(),
        forall|k: int|
            0 <= k < old(sources)@.len() ==> {
                let stf = spec_scan(
                    old(sources)@[k]@,
                    attacker_views(attackers@),
                    init_scan_state(old(sources)@[k]@),
                    0,
                );
                &&& (#[trigger] final(sources)@[k])@.dealer.pierce == stf.pierce
                &&& final(sources)@[k]@.dealer.hits == stf.hits
                &&& final(sources)@[k]@.removed == stf.removed
                &&& final(sources)@[k]@.dealer.damage == old(sources)@[k]@.dealer.damage
                &&& final(sources)@[k]@.dealer.cannot_pop_modifiers == old(
                    sources,
                )@[k]@.dealer.cannot_pop_modifiers
                &&& final(sources)@[k]@.dealer.cannot_target_modifiers == old(
                    sources,
                )@[k]@.dealer.cannot_target_modifiers
                &&& final(sources)@[k]@.hitbox == old(sources)@[k]@.hitbox
                &&& final(sources)@[k]@.pos == old(sources)@[k]@.pos
            },
        events@ == spec_all_events(
            source_views(old(sources)@),
            attacker_views(attackers@),
            old(sources)@.len() as int,
        ),
        sources_wf(source_views(final(sources)@)),
{
    let ghost srcs0 = source_views(old(sources)@);
    let ghost vs = attacker_views(attackers@);
    let mut events: Vec<crate::damage::BloonDamageEvent> = Vec::new();
    let n = sources.len();
    let mut k: usize = 0;
    while k < n
        invariant
            n == sources@.len(),
            srcs0.len() == n,
            vs == attacker_views(attackers@),
            forall|j: int|
                0 <= j < attackers@.len() ==> position_wf(#[trigger] attackers@[j]@.pos)
                    && hitbox_wf(attackers@[j]@.hitbox),
            k <= n,
            forall|j: int| k <= j < n ==> (#[trigger] sources@[j])@ == srcs0[j],
            sources_wf(srcs0),
            forall|j: int|
                0 <= j < k ==> {
                    let stf = spec_scan(srcs0[j], vs, init_scan_state(srcs0[j]), 0);
                    &&& (#[trigger] sources@[j])@.dealer.pierce == stf.pierce
                    &&& sources@[j]@.dealer.hits == stf.hits
                    &&& sources@[j]@.removed == stf.removed
                    &&& sources@[j]@.dealer.damage == srcs0[j].dealer.damage
                    &&& sources@[j]@.dealer.cannot_pop_modifiers
                        == srcs0[j].dealer.cannot_pop_modifiers
                    &&& sources@[j]@.dealer.cannot_target_modifiers
                        == srcs0[j].dealer.cannot_target_modifiers
                    &&& sources@[j]@.hitbox == srcs0[j].hitbox
                    &&& sources@[j]@.pos == srcs0[j].pos
                },
            events@ == spec_all_events(srcs0, vs, k as int),
        decreases n - k,
    {
        proof {
            assert(sources@[k as int]@ == srcs0[k as int]);
            assert(source_wf(srcs0[k as int]));
        }
        let src = sources.remove(k);
        let (src2, mut evs) = scan_source(src, attackers);
        sources.insert(k, src2);
        events.append(&mut evs);
        k = k + 1;
    }
    events
}

/// The sources still present after spent ones are taken out, in order.
pub open spec fn spec_live_sources(s: Seq<SourceView>, k: int) -> Seq<SourceView>
    decreases k,
{
    if k <= 0 {
        Seq::empty()
    } else {
        spec_live_sources(s, k - 1) + (if s[k - 1].removed {
            Seq::empty()
        } else {
            seq![s[k - 1]]
        })
    }
}

/// Take out every damage source marked removed (pierce exhausted).
pub fn remove_spent_sources(sources: &mut Vec<SourceEntity>)
    ensures
        source_views(final(sources)@) == spec_live_sources(
            source_views(old(sources)@),
            old(sources)@.len() as int,
        ),
        sources_wf(source_views(old(sources)@)) ==> sources_wf(source_views(final(sources)@)),
{
    let ghost ss0 = source_views(old(sources)@);
    let mut kept: Vec<SourceEntity> = Vec::new();
    let mut j: usize = 0;
    let n_exec = sources.len();
    let ghost n0 = n_exec as int;
    while sources.len() > 0
        invariant
            ss0.len() == n0,
            n0 <= usize::MAX,
            j as int + sources@.len() == n0,
            j <= n0,
            forall|i: int| 0 <= i < sources@.len() ==> (#[trigger] sources@[i])@ == ss0[j + i],
            source_views(kept@) == spec_live_sources(ss0, j as int),
        decreases sources@.len(),
    {
        let s = sources.remove(0);
        let ghost sj = j as int;
        let ghost kept_pre = kept@;
        proof {
            assert(s@ == ss0[sj]);
        }
        if !s.removed {
            kept.push(s);
        }
        j = j + 1;
        proof {
            if ss0[sj].removed {
                assert(spec_live_sources(ss0, sj + 1) =~= spec_live_sources(ss0, sj));
            } else {
                lemma_source_views_push(kept_pre, s);
                assert(spec_live_sources(ss0, sj + 1) =~= source_views(kept_pre).push(ss0[sj]));
            }
        }
    }
    core::mem::swap(sources, &mut kept);
    proof {
        lemma_live_sources_wf(ss0, n0);
    }
}

/// The view of a source collection extended by one entity.
proof fn lemma_source_views_push(s: Seq<SourceEntity>, a: SourceEntity)
    ensures
        source_views(s.push(a)) == source_views(s).push(a@),
{
    assert(source_views(s.push(a)) =~= source_views(s).push(a@));
}

/// Live sources were all in the input, so well-formedness carries over.
proof fn lemma_live_sources_wf(s: Seq<SourceView>, k: int)
    requires
        k <= s.len(),
    ensures
        sources_wf(s) ==> sources_wf(spec_live_sources(s, k)),
    decreases k,
{
    if k > 0 {
        lemma_live_sources_wf(s, k - 1);
    }
}

/// Health after one damage application, saturating at the lowest
/// representable value so deep overkill cannot wrap around.
pub open spec fn spec_damaged_hp(hp: int, d: int) -> int {
    if hp - d < i32::MIN {
        i32::MIN as int
    } else {
        hp - d
    }
}

/// Health of attacker `j` (starting at `h0`) after the first `k` queued
/// damage events are applied in order.
pub open spec fn spec_hp_applied(
    h0: int,
    evs: Seq<crate::damage::BloonDamageEvent>,
    j: int,
    k: int,
) -> int
    decreases k,
{
    if k <= 0 {
        h0
    } else {
        let h = spec_hp_applied(h0, evs, j, k - 1);
        if evs[k - 1].bloon == j {
            spec_damaged_hp(h, evs[k - 1].damage as int)
        } else {
            h
        }
    }
}

/// Status effects of attacker `j` (starting at `e0`) after the first `k`
/// queued damage events are applied in order.
pub open spec fn spec_effects_applied(
    e0: Seq<crate::bloon::BloonEffect>,
    evs: Seq<crate::damage::BloonDamageEvent>,
    j: int,
    k: int,
) -> Seq<crate::bloon::BloonEffect>
    decreases k,
{
    if k <= 0 {
        e0
    } else {
        let e = spec_effects_applied(e0, evs, j, k - 1);
        if evs[k - 1].bloon == j {
            match evs[k - 1].status_effect {
                Some(x) => e.push(x),
                None => e,
            }
        } else {
            e
        }
    }
}

/// Damage-application phase: apply all queued damage events, in order, to
/// a stable attacker collection; an event naming an index past the
/// collection is ignored. Only health and status effects change.
pub fn apply_bloon_damage(
    attackers: &mut Vec<AttackerEntity>,
    events: &Vec<crate::damage::BloonDamageEvent>,
)
    requires
        forall|k: int| 0 <= k < events@.len() ==> (#[trigger] events@[k]).damage >= 0,
    ensures
        final(attackers)@.len() == old(attackers)@.len(),
        forall|j: int|
            0 <= j < final(attackers)@.len() ==> {
                let a0 = old(attackers)@[j]@;
                let a2 = (#[trigger] final(attackers)@[j])@;
                &&& a2.bloon.hp == spec_hp_applied(
                    a0.bloon.hp as int,
                    events@,
                    j,
                    events@.len() as int,
                )
                &&& a2.bloon.effects == spec_effects_applied(
                    a0.bloon.effects,
                    events@,
                    j,
                    events@.len() as int,
                )
                &&& a2.bloon.bid == a0.bloon.bid
                &&& a2.bloon.modifiers == a0.bloon.modifiers
                &&& a2.bloon.tier == a0.bloon.tier
                &&& a2.re == a0.re
                &&& a2.hitbox == a0.hitbox
                &&& a2.pos == a0.pos
            },
{
    let ghost vs0 = attacker_views(old(attackers)@);
    let ghost evs = events@;
    let m = events.len();
    let mut k: usize = 0;
    while k < m
        invariant
            m == events@.len(),
            evs == events@,
            forall|q: int| 0 <= q < evs.len() ==> (#[trigger] evs[q]).damage >= 0,
            k <= m,
            attackers@.len() == vs0.len(),
            vs0 == attacker_views(old(attackers)@),
            forall|j: int|
                0 <= j < attackers@.len() ==> {
                    let a0 = vs0[j];
                    let a2 = (#[trigger] attackers@[j])@;
                    &&& a2.bloon.hp == spec_hp_applied(a0.bloon.hp as int, evs, j, k as int)
                    &&& a2.bloon.effects == spec_effects_applied(a0.bloon.effects, evs, j, k as int)
                    &&& a2.bloon.bid == a0.bloon.bid
                    &&& a2.bloon.modifiers == a0.bloon.modifiers
                    &&& a2.bloon.tier == a0.bloon.tier
                    &&& a2.re == a0.re
                    &&& a2.hitbox == a0.hitbox
                    &&& a2.pos == a0.pos
                },
        decreases m - k,
    {
        let ev = events[k];
        if ev.bloon < attackers.len() {
            let mut a = attackers.remove(ev.bloon);
            let hp64: i64 = (a.bloon.hp as i64) - (ev.damage as i64);
            a.bloon.hp = if hp64 < (i32::MIN as i64) {
                i32::MIN
            } else {
                hp64 as i32
            };
            if let Some(e) = ev.status_effect {
                a.bloon.apply_effect(e);
            }
            attackers.insert(ev.bloon, a);
        }
        k = k + 1;
    }
}

/// The damage events one global effect queues: one per alive attacker
/// (positive health), in attacker order, carrying the effect's damage and
/// optional status effect.
pub open spec fn spec_global_expand_one(
    g: crate::damage::GlobalDamageEvent,
    vs: Seq<AttackerView>,
    j: int,
) -> Seq<crate::damage::BloonDamageEvent>
    decreases j,
{
    if j <= 0 {
        Seq::empty()
    } else {
        spec_global_expand_one(g, vs, j - 1) + (if vs[j - 1].bloon.hp > 0 {
            seq![
                crate::damage::BloonDamageEvent {
                    damage: g.damage,
                    status_effect: g.status_effect,
                    bloon: (j - 1) as usize,
                },
            ]
        } else {
            Seq::empty()
        })
    }
}

/// The damage events the first `k` global effects queue, in order.
pub open spec fn spec_global_expand(
    gs: Seq<crate::damage::GlobalDamageEvent>,
    vs: Seq<AttackerView>,
    k: int,
) -> Seq<crate::damage::BloonDamageEvent>
    decreases k,
{
    if k <= 0 {
        Seq::empty()
    } else {
        spec_global_expand(gs, vs, k - 1) + spec_global_expand_one(
            gs[k - 1],
            vs,
            vs.len() as int,
        )
    }
}

/// Expand queued global damage effects into per-attacker damage events:
/// each effect queues its damage against every currently alive attacker,
/// to be resolved in the same damage-application phase as targeted damage.
pub fn global_damage_effects(
    globals: &Vec<crate::damage::GlobalDamageEvent>,
    attackers: &Vec<AttackerEntity>,
) -> (events: Vec<crate::damage::BloonDamageEvent>)
    ensures
        events@ == spec_global_expand(globals@, attacker_views(attackers@), globals@.len() as int),
{
    let ghost gs = globals@;
    let ghost vs = attacker_views(attackers@);
    let mut events: Vec<crate::damage::BloonDamageEvent> = Vec::new();
    let m = globals.len();
    let n = attackers.len();
    let mut k: usize = 0;
    while k < m
        invariant
            m == gs.len(),
            gs == globals@,
            n == attackers@.len(),
            vs == attacker_views(attackers@),
            vs.len() == n,
            k <= m,
            events@ == spec_global_expand(gs, vs, k as int),
        decreases m - k,
    {
        let g = globals[k];
        let ghost ev_pre = events@;
        let mut j: usize = 0;
        while j < n
            invariant
                n == attackers@.len(),
                vs == attacker_views(attackers@),
                vs.len() == n,
                j <= n,
                g == gs[k as int],
                events@ == ev_pre + spec_global_expand_one(g, vs, j as int),
            decreases n - j,
        {
            proof {
                assert(attackers@[j as int]@ == vs[j as int]);
            }
            if attackers[j].bloon.hp > 0 {
                events.push(
                    crate::damage::BloonDamageEvent {
                        damage: g.damage,
                        status_effect: g.status_effect,
                        bloon: j,
                    },
                );
            }
            j = j + 1;
            proof {
                assert(events@ =~= ev_pre + spec_global_expand_one(g, vs, j as int));
            }
        }
        k = k + 1;
        proof {
            assert(events@ =~= spec_global_expand(gs, vs, k as int));
        }
    }
    events
}

/// The stagger distance the `k`-th split-produced sibling is advanced by:
/// a fixed offset per index, capped at the largest acceptable step.
pub open spec fn spec_stagger(k: int) -> int {
    if k > 79536 {
        STEP_LIMIT as int
    } else {
        13500 * k
    }
}

/// Executable stagger distance.
fn stagger_step(k: usize) -> (r: i64)
    ensures
        r == spec_stagger(k as int),
        0 <= r <= STEP_LIMIT,
{
    if k > 79536 {
        STEP_LIMIT
    } else {
        13500 * (k as i64)
    }
}

/// The descendant tiers a destroyed attacker resolves to: its overkill
/// magnitude (zero for an exact kill) propagated through the catalog.
pub open spec fn spec_descendants(a: AttackerView) -> Seq<BloonTier> {
    crate::overkill::spec_resolve(a.bloon.tier, -(a.bloon.hp as int))
}

/// Whether the descendants' lineage derivation fits the 32-bit path.
pub open spec fn spec_split_fits(a: AttackerView) -> bool {
    a.bloon.bid.layer as nat + crate::lineage::spec_bits_for(spec_descendants(a).len()) <= 32
}

/// The view of the `k`-th descendant instance a destroyed attacker leaves:
/// descendant 0 replaces the original in place (same road position);
/// descendants 1.. are staggered forward along the path by a fixed offset
/// per index.
pub open spec fn spec_child_view(m: RoadMap, a: AttackerView, k: int) -> AttackerView {
    let ts = spec_descendants(a);
    let tier = ts[k];
    let mods = crate::bloon::spec_spawn_modifiers(tier, a.bloon.modifiers);
    let b = BloonView {
        bid: crate::lineage::spec_derive_child(a.bloon.bid, k as nat, ts.len()),
        hp: crate::bloon::spec_spawn_hp(tier, mods) as i32,
        modifiers: mods,
        effects: Seq::empty(),
        tier,
    };
    let hb = HitboxSimple { radius: spec_hitbox_radius(tier) as i64 };
    if k == 0 {
        AttackerView {
            bloon: b,
            re: MoveAlongRoad {
                target_node: a.re.target_node,
                road_pos: a.re.road_pos,
                waypoint: a.re.waypoint,
                velocity: spec_base_speed(tier) as i64,
            },
            hitbox: hb,
            pos: a.pos,
        }
    } else {
        let (t2, rp2, p2) = spec_advance(
            m,
            a.re.target_node as int,
            a.re.road_pos as int,
            a.pos,
            spec_stagger(k),
        );
        AttackerView {
            bloon: b,
            re: MoveAlongRoad {
                target_node: t2 as usize,
                road_pos: rp2 as i64,
                waypoint: if t2 < m.path@.len() {
                    m.path@[t2]
                } else {
                    spec_sentinel()
                },
                velocity: spec_base_speed(tier) as i64,
            },
            hitbox: hb,
            pos: p2,
        }
    }
}

/// Whether a destroyed attacker splits (rather than being removed): it has
/// at least one descendant and the lineage derivation fits the path width.
pub open spec fn spec_splits(a: AttackerView) -> bool {
    spec_descendants(a).len() > 0 && spec_split_fits(a)
}

/// In-place part of the split/replace phase for one attacker: survivors
/// stay, a splitting attacker is replaced by its first descendant, others
/// vanish.
pub open spec fn spec_pop_entry_main(m: RoadMap, a: AttackerView) -> Seq<AttackerView> {
    if a.bloon.hp > 0 {
        seq![a]
    } else if spec_splits(a) {
        seq![spec_child_view(m, a, 0)]
    } else {
        Seq::empty()
    }
}

/// Newly spawned siblings for one attacker: descendants 1.. of a split.
pub open spec fn spec_pop_entry_spawned(m: RoadMap, a: AttackerView) -> Seq<AttackerView> {
    if a.bloon.hp <= 0 && spec_splits(a) {
        Seq::new((spec_descendants(a).len() - 1) as nat, |j: int| spec_child_view(m, a, j + 1))
    } else {
        Seq::empty()
    }
}

/// Attackers destroyed outright (no descendants) by the split phase.
pub open spec fn spec_pop_entry_removed(a: AttackerView) -> Seq<AttackerView> {
    if a.bloon.hp <= 0 && !spec_splits(a) {
        seq![a]
    } else {
        Seq::empty()
    }
}

/// In-place results of the split/replace phase over the first `k`
/// attackers.
pub open spec fn spec_pop_main(m: RoadMap, s: Seq<AttackerView>, k: int) -> Seq<AttackerView>
    decreases k,
{
    if k <= 0 {
        Seq::empty()
    } else {
        spec_pop_main(m, s, k - 1) + spec_pop_entry_main(m, s[k - 1])
    }
}

/// Spawned siblings of the split/replace phase over the first `k`
/// attackers, appended after all in-place results.
pub open spec fn spec_pop_spawned(m: RoadMap, s: Seq<AttackerView>, k: int) -> Seq<AttackerView>
    decreases k,
{
    if k <= 0 {
        Seq::empty()
    } else {
        spec_pop_spawned(m, s, k - 1) + spec_pop_entry_spawned(m, s[k - 1])
    }
}

/// Attackers the split/replace phase removes outright, in order.
pub open spec fn spec_pop_removed(s: Seq<AttackerView>, k: int) -> Seq<AttackerView>
    decreases k,
{
    if k <= 0 {
        Seq::empty()
    } else {
        spec_pop_removed(s, k - 1) + spec_pop_entry_removed(s[k - 1])
    }
}

/// Split/replace phase, run after damage application: every attacker with
/// non-positive health is resolved through the overkill engine. With no
/// descendants it is removed; otherwise its first descendant replaces it
/// in place (same road position), and the remaining descendants are
/// spawned as new attackers staggered forward along the path, appended
/// after all in-place results. Returns the attackers removed outright.
pub fn pop_bloons(
    map: &RoadMap,
    table: &crate::overkill::OverkillLookupTable,
    attackers: &mut Vec<AttackerEntity>,
) -> (removed: Vec<AttackerEntity>)
    requires
        map_wf(*map),
        crate::overkill::table_wf(*table),
        attackers_wf(attacker_views(old(attackers)@), *map),
    ensures
        attacker_views(final(attackers)@) == spec_pop_main(
            *map,
            attacker_views(old(attackers)@),
            old(attackers)@.len() as int,
        ) + spec_pop_spawned(
            *map,
            attacker_views(old(attackers)@),
            old(attackers)@.len() as int,
        ),
        attacker_views(removed@) == spec_pop_removed(
            attacker_views(old(attackers)@),
            old(attackers)@.len() as int,
        ),
        attackers_wf(attacker_views(final(attackers)@), *map),
{
    let ghost vs0 = attacker_views(old(attackers)@);
    let mut kept: Vec<AttackerEntity> = Vec::new();
    let mut spawned: Vec<AttackerEntity> = Vec::new();
    let mut removed: Vec<AttackerEntity> = Vec::new();
    let n_exec = attackers.len();
    let ghost n0 = n_exec as int;
    let mut j: usize = 0;
    while attackers.len() > 0
        invariant
            map_wf(*map),
            crate::overkill::table_wf(*table),
            vs0.len() == n0,
            n0 <= usize::MAX,
            j as int + attackers@.len() == n0,
            j <= n0,
            attackers_wf(vs0, *map),
            forall|i: int| 0 <= i < attackers@.len() ==> (#[trigger] attackers@[i])@ == vs0[j + i],
            attacker_views(kept@) == spec_pop_main(*map, vs0, j as int),
            attacker_views(spawned@) == spec_pop_spawned(*map, vs0, j as int),
            attacker_views(removed@) == spec_pop_removed(vs0, j as int),
            attackers_wf(attacker_views(kept@), *map),
            attackers_wf(attacker_views(spawned@), *map),
        decreases attackers@.len(),
    {
        let a = attackers.remove(0);
        let ghost aj = j as int;
        let ghost av = vs0[aj];
        proof {
            assert(a@ == av);
            assert(attacker_wf(av, *map));
        }
        let ghost kept_pre = kept@;
        let ghost spawned_pre = spawned@;
        let ghost removed_pre = removed@;
        if a.bloon.hp > 0 {
            kept.push(a);
            proof {
                lemma_views_push(kept_pre, a);
                assert(attacker_views(kept@) =~= spec_pop_main(*map, vs0, aj + 1));
                assert(spec_pop_spawned(*map, vs0, aj + 1) =~= spec_pop_spawned(*map, vs0, aj));
                assert(spec_pop_removed(vs0, aj + 1) =~= spec_pop_removed(vs0, aj));
            }
        } else {
            proof {
                assert(spec_descendants(av) == crate::overkill::spec_resolve(
                    av.bloon.tier,
                    -(av.bloon.hp as int),
                ));
            }
            let mut children: Vec<Bloon> = if a.bloon.hp == 0 {
                a.bloon.get_child_bloons()
            } else {
                crate::overkill::calculate_overkill(&a.bloon, table)
            };
            let n = children.len();
            proof {
                if !spec_split_fits(av) {
                    assert(n == 0);
                } else {
                    assert(n == spec_descendants(av).len());
                }
            }
            if n == 0 {
                removed.push(a);
                proof {
                    lemma_views_push(removed_pre, a);
                    assert(!spec_splits(av));
                    assert(attacker_views(removed@) =~= spec_pop_removed(vs0, aj + 1));
                    assert(spec_pop_main(*map, vs0, aj + 1) =~= spec_pop_main(*map, vs0, aj));
                    assert(spec_pop_spawned(*map, vs0, aj + 1) =~= spec_pop_spawned(
                        *map,
                        vs0,
                        aj,
                    ));
                }
            } else {
                proof {
                    assert(spec_split_fits(av));
                    assert(spec_splits(av));
                }
                let ghost ab = a.bloon;
                let ghost ts = spec_descendants(av);
                let mut k: usize = 0;
                while children.len() > 0
                    invariant
                        map_wf(*map),
                        attacker_wf(av, *map),
                        av.bloon == ab@,
                        spec_splits(av),
                        spec_split_fits(av),
                        ts == spec_descendants(av),
                        n == ts.len(),
                        a@ == av,
                        k as int + children@.len() == n,
                        k <= n,
                        forall|i: int|
                            0 <= i < children@.len()
                                ==> crate::bloon::spec_split_instance_matches(
                                ab,
                                #[trigger] children@[i],
                                ts,
                                (k + i) as nat,
                            ),
                        attacker_views(kept@) == spec_pop_main(*map, vs0, aj) + (if k > 0 {
                            seq![spec_child_view(*map, av, 0)]
                        } else {
                            Seq::empty()
                        }),
                        attacker_views(spawned@) == spec_pop_spawned(*map, vs0, aj) + Seq::new(
                            (if k >= 1 {
                                k - 1
                            } else {
                                0
                            }) as nat,
                            |q: int| spec_child_view(*map, av, q + 1),
                        ),
                        attackers_wf(attacker_views(kept@), *map),
                        attackers_wf(attacker_views(spawned@), *map),
                    decreases children@.len(),
                {
                    let ch = children.remove(0);
                    proof {
                        assert(crate::bloon::spec_split_instance_matches(ab, ch, ts, k as nat));
                        crate::lineage::lemma_derive_child_wf(av.bloon.bid, k as nat, n as nat);
                        lemma_speed_in_step_range(ch.tier);
                        lemma_radius_in_range(ch.tier);
                    }
                    let speed = ch.tier.get_base_speed();
                    let radius = ch.tier.get_base_hitbox_radius();
                    let ghost kept_in = kept@;
                    let ghost spawned_in = spawned@;
                    if k == 0 {
                        let re = a.re.clone_with_velocity(speed);
                        let child = AttackerEntity {
                            bloon: ch,
                            re,
                            hitbox: HitboxSimple { radius },
                            pos: a.pos,
                        };
                        proof {
                            assert(child.bloon.effects@ =~= Seq::<crate::bloon::BloonEffect>::empty());
                            assert(child@ == spec_child_view(*map, av, 0));
                            assert(attacker_wf(child@, *map));
                        }
                        kept.push(child);
                        proof {
                            lemma_views_push(kept_in, child);
                            assert(attacker_views(kept@) =~= spec_pop_main(*map, vs0, aj)
                                + seq![spec_child_view(*map, av, 0)]);
                        }
                    } else {
                        let mut re = a.re.clone_with_velocity(speed);
                        let mut pos = a.pos;
                        let step = stagger_step(k);
                        advance_move_along_road(step, map, &mut re, &mut pos);
                        let child = AttackerEntity {
                            bloon: ch,
                            re,
                            hitbox: HitboxSimple { radius },
                            pos,
                        };
                        proof {
                            assert(child.bloon.effects@ =~= Seq::<crate::bloon::BloonEffect>::empty());
                            assert(child@ == spec_child_view(*map, av, k as int));
                            assert(attacker_wf(child@, *map));
                        }
                        spawned.push(child);
                        proof {
                            lemma_views_push(spawned_in, child);
                            assert(Seq::new(
                                k as nat,
                                |q: int| spec_child_view(*map, av, q + 1),
                            ) =~= Seq::new(
                                (k - 1) as nat,
                                |q: int| spec_child_view(*map, av, q + 1),
                            ).push(spec_child_view(*map, av, k as int)));
                            assert(attacker_views(spawned@) =~= spec_pop_spawned(*map, vs0, aj)
                                + Seq::new(k as nat, |q: int| spec_child_view(*map, av, q + 1)));
                        }
                    }
                    k = k + 1;
                }
                proof {
                    assert(k == n);
                    assert(spec_pop_entry_main(*map, av) =~= seq![spec_child_view(*map, av, 0)]);
                    assert(attacker_views(kept@) =~= spec_pop_main(*map, vs0, aj + 1));
                    assert(spec_pop_entry_spawned(*map, av) =~= Seq::new(
                        (n - 1) as nat,
                        |q: int| spec_child_view(*map, av, q + 1),
                    ));
                    assert(attacker_views(spawned@) =~= spec_pop_spawned(*map, vs0, aj + 1));
                    assert(spec_pop_removed(vs0, aj + 1) =~= spec_pop_removed(vs0, aj));
                }
            }
        }
        j = j + 1;
    }
    kept.append(&mut spawned);
    core::mem::swap(attackers, &mut kept);
    proof {
        assert(attacker_views(attackers@) =~= spec_pop_main(*map, vs0, n0) + spec_pop_spawned(
            *map,
            vs0,
            n0,
        ));
    }
    removed
}

/// Inductive core of the pierce-count law, over any suffix of the scan.
proof fn lemma_scan_count_from(src: SourceView, vs: Seq<AttackerView>, st: ScanState, i: int)
    requires
        0 <= i <= vs.len(),
        forall|j: int|
            i <= j < vs.len() ==> spec_target_hit(src, st.hits, #[trigger] vs[j]),
        forall|j1: int, j2: int|
            i <= j1 < vs.len() && i <= j2 < vs.len() && j1 != j2 ==> !crate::lineage::spec_same_lineage(
                #[trigger] vs[j1].bloon.bid,
                #[trigger] vs[j2].bloon.bid,
            ),
    ensures
        spec_scan(src, vs, st, i).events.len() == st.events.len() + (if st.pierce <= vs.len() - i {
            st.pierce as int
        } else {
            vs.len() - i
        }),
        spec_scan(src, vs, st, i).removed == (st.removed || (0 < st.pierce <= vs.len() - i)),
    decreases vs.len() - i,
{
    if i >= vs.len() || st.pierce == 0 {
    } else {
        let a = vs[i];
        assert(spec_target_hit(src, st.hits, a));
        let p2 = (st.pierce - 1) as u32;
        let st2 = ScanState {
            pierce: p2,
            hits: st.hits.push(a.bloon.bid),
            events: st.events.push(
                crate::damage::BloonDamageEvent {
                    damage: src.dealer.damage,
                    status_effect: None,
                    bloon: i as usize,
                },
            ),
            removed: st.removed || p2 == 0,
        };
        assert forall|j: int| i + 1 <= j < vs.len() implies spec_target_hit(
            src,
            st2.hits,
            #[trigger] vs[j],
        ) by {
            assert(spec_target_hit(src, st.hits, vs[j]));
            assert(!crate::lineage::spec_same_lineage(vs[i].bloon.bid, vs[j].bloon.bid));
            assert forall|k: int|
                0 <= k < st2.hits.len() implies !crate::lineage::spec_same_lineage(
                #[trigger] st2.hits[k],
                vs[j].bloon.bid,
            ) by {
                if k < st.hits.len() {
                    assert(!crate::damage::spec_has_hit(st.hits, vs[j].bloon.bid));
                } else {
                    assert(st2.hits[k] == vs[i].bloon.bid);
                }
            }
        }
        lemma_scan_count_from(src, vs, st2, i + 1);
    }
}

/// The pierce-count law: a damage source with pierce `P`, scanned over a
/// field of attackers that are all in range and targetable, none of which
/// shares a lineage with another or with anything already on the source's
/// hit list, registers exactly `min(P, attacker_count)` hits — and is
/// marked removed exactly when its pierce reached zero, that is, exactly
/// when `0 < P <= attacker_count`.
pub proof fn lemma_pierce_hits_min(src: SourceView, vs: Seq<AttackerView>)
    requires
        !src.removed,
        forall|j: int|
            0 <= j < vs.len() ==> spec_target_hit(src, src.dealer.hits, #[trigger] vs[j]),
        forall|j1: int, j2: int|
            0 <= j1 < vs.len() && 0 <= j2 < vs.len() && j1 != j2 ==> !crate::lineage::spec_same_lineage(
                #[trigger] vs[j1].bloon.bid,
                #[trigger] vs[j2].bloon.bid,
            ),
    ensures
        spec_scan(src, vs, init_scan_state(src), 0).events.len() == (if src.dealer.pierce
            <= vs.len() {
            src.dealer.pierce as int
        } else {
            vs.len() as int
        }),
        spec_scan(src, vs, init_scan_state(src), 0).removed == (0 < src.dealer.pierce
            <= vs.len()),
{
    lemma_scan_count_from(src, vs, init_scan_state(src), 0);
}

/// The attacker views after a damage-event queue is applied: health and
/// status effects folded event by event, everything else untouched.
pub open spec fn spec_applied(
    vs: Seq<AttackerView>,
    evs: Seq<crate::damage::BloonDamageEvent>,
) -> Seq<AttackerView> {
    Seq::new(
        vs.len(),
        |j: int|
            AttackerView {
                bloon: BloonView {
                    bid: vs[j].bloon.bid,
                    hp: spec_hp_applied(vs[j].bloon.hp as int, evs, j, evs.len() as int) as i32,
                    modifiers: vs[j].bloon.modifiers,
                    effects: spec_effects_applied(vs[j].bloon.effects, evs, j, evs.len() as int),
                    tier: vs[j].bloon.tier,
                },
                re: vs[j].re,
                hitbox: vs[j].hitbox,
                pos: vs[j].pos,
            },
    )
}

/// The source views after the collision phase: pierce, hit list and
/// removed mark of each source as its scan leaves them.
pub open spec fn spec_scanned(srcs: Seq<SourceView>, vs: Seq<AttackerView>) -> Seq<SourceView> {
    Seq::new(
        srcs.len(),
        |k: int|
            {
                let stf = spec_scan(srcs[k], vs, init_scan_state(srcs[k]), 0);
                SourceView {
                    dealer: DealerView {
                        damage: srcs[k].dealer.damage,
                        pierce: stf.pierce,
                        hits: stf.hits,
                        cannot_pop_modifiers: srcs[k].dealer.cannot_pop_modifiers,
                        cannot_target_modifiers: srcs[k].dealer.cannot_target_modifiers,
                    },
                    hitbox: srcs[k].hitbox,
                    pos: srcs[k].pos,
                    removed: stf.removed,
                }
            },
    )
}

/// Every event a well-formed source's scan queues carries non-negative
/// damage.
proof fn lemma_scan_events_nonneg(
    src: SourceView,
    vs: Seq<AttackerView>,
    st: ScanState,
    i: int,
)
    requires
        crate::damage::dealer_wf(src.dealer),
        forall|q: int| 0 <= q < st.events.len() ==> (#[trigger] st.events[q]).damage >= 0,
    ensures
        forall|q: int|
            0 <= q < spec_scan(src, vs, st, i).events.len() ==> (#[trigger] spec_scan(
                src,
                vs,
                st,
                i,
            ).events[q]).damage >= 0,
    decreases vs.len() - i,
{
    if i < 0 || i >= vs.len() || st.pierce == 0 {
    } else {
        let a = vs[i];
        if spec_target_hit(src, st.hits, a) {
            let p2 = (st.pierce - 1) as u32;
            let st2 = ScanState {
                pierce: p2,
                hits: st.hits.push(a.bloon.bid),
                events: st.events.push(
                    crate::damage::BloonDamageEvent {
                        damage: src.dealer.damage,
                        status_effect: None,
                        bloon: i as usize,
                    },
                ),
                removed: st.removed || p2 == 0,
            };
            lemma_scan_events_nonneg(src, vs, st2, i + 1);
        } else {
            lemma_scan_events_nonneg(src, vs, st, i + 1);
        }
    }
}

/// Every event the collision phase queues carries non-negative damage.
proof fn lemma_all_events_nonneg(srcs: Seq<SourceView>, vs: Seq<AttackerView>, k: int)
    requires
        sources_wf(srcs),
        k <= srcs.len(),
    ensures
        forall|q: int|
            0 <= q < spec_all_events(srcs, vs, k).len() ==> (#[trigger] spec_all_events(
                srcs,
                vs,
                k,
            )[q]).damage >= 0,
    decreases k,
{
    if k > 0 {
        lemma_all_events_nonneg(srcs, vs, k - 1);
        lemma_scan_events_nonneg(srcs[k - 1], vs, init_scan_state(srcs[k - 1]), 0);
    }
}

/// Every event one global effect expands to carries the effect's damage.
proof fn lemma_global_expand_one_nonneg(
    g: crate::damage::GlobalDamageEvent,
    vs: Seq<AttackerView>,
    j: int,
)
    requires
        g.damage >= 0,
    ensures
        forall|q: int|
            0 <= q < spec_global_expand_one(g, vs, j).len() ==> (#[trigger] spec_global_expand_one(
                g,
                vs,
                j,
            )[q]).damage >= 0,
    decreases j,
{
    if j > 0 {
        lemma_global_expand_one_nonneg(g, vs, j - 1);
    }
}

/// Every event the global expansion queues carries non-negative damage.
proof fn lemma_global_expand_nonneg(
    gs: Seq<crate::damage::GlobalDamageEvent>,
    vs: Seq<AttackerView>,
    k: int,
)
    requires
        forall|q: int| 0 <= q < gs.len() ==> (#[trigger] gs[q]).damage >= 0,
        k <= gs.len(),
    ensures
        forall|q: int|
            0 <= q < spec_global_expand(gs, vs, k).len() ==> (#[trigger] spec_global_expand(
                gs,
                vs,
                k,
            )[q]).damage >= 0,
    decreases k,
{
    if k > 0 {
        lemma_global_expand_nonneg(gs, vs, k - 1);
        lemma_global_expand_one_nonneg(gs[k - 1], vs, vs.len() as int);
    }
}

/// The whole simulation: the road, the overkill table built once at
/// startup, and the attacker and damage-source collections the tick
/// pipeline runs over.
pub struct Simulation {
    pub map: RoadMap,
    pub table: crate::overkill::OverkillLookupTable,
    pub attackers: Vec<AttackerEntity>,
    pub sources: Vec<SourceEntity>,
    pub pending_global: Vec<crate::damage::GlobalDamageEvent>,
}

/// A well-formed simulation: a well-formed road and overkill table, and
/// well-formed attackers, sources and queued global effects.
pub open spec fn sim_wf(s: Simulation) -> bool {
    &&& map_wf(s.map)
    &&& crate::overkill::table_wf(s.table)
    &&& attackers_wf(attacker_views(s.attackers@), s.map)
    &&& sources_wf(source_views(s.sources@))
    &&& forall|q: int|
        0 <= q < s.pending_global@.len() ==> (#[trigger] s.pending_global@[q]).damage >= 0
}

impl Simulation {
    /// A fresh simulation over the given road, with the overkill lookup
    /// table built once, before any tick runs.
    pub fn new(map: RoadMap) -> (r: Simulation)
        requires
            map_wf(map),
        ensures
            sim_wf(r),
            r.map == map,
            crate::overkill::table_full(r.table),
            r.attackers@.len() == 0,
            r.sources@.len() == 0,
            r.pending_global@.len() == 0,
    {
        Simulation {
            map,
            table: crate::overkill::generate_lookup_overkill_bloon(),
            attackers: Vec::new(),
            sources: Vec::new(),
            pending_global: Vec::new(),
        }
    }

    /// Spawn a fresh root attacker of the given tier at the start of the
    /// road.
    pub fn spawn_root(&mut self, tier: BloonTier)
        requires
            sim_wf(*old(self)),
            old(self).map.path@.len() > 0,
        ensures
            sim_wf(*final(self)),
            final(self).map == old(self).map,
            final(self).sources@ == old(self).sources@,
            final(self).pending_global@ == old(self).pending_global@,
            final(self).attackers@.len() == old(self).attackers@.len() + 1,
            forall|j: int|
                0 <= j < old(self).attackers@.len() ==> (#[trigger] final(self).attackers@[j])
                    == old(self).attackers@[j],
            ({
                let l = final(self).attackers@.last()@;
                &&& l.bloon.tier == tier
                &&& l.bloon.bid.layer == 0
                &&& l.bloon.bid.tree == 0
                &&& l.bloon.modifiers == crate::bloon::spec_spawn_modifiers(tier, 0)
                &&& l.bloon.hp == crate::bloon::spec_spawn_hp(tier, l.bloon.modifiers)
                &&& l.bloon.effects.len() == 0
                &&& l.re.target_node == 0
                &&& l.re.road_pos == 0
                &&& l.pos == old(self).map.path@[0]
            }),
    {
        let a = create_bloon(tier, &self.map);
        let ghost pre = self.attackers@;
        self.attackers.push(a);
        proof {
            lemma_views_push(pre, a);
            assert(attackers_wf(attacker_views(self.attackers@), self.map));
        }
    }

    /// Register a damage source, built from the damage amount, pierce
    /// count, exclusion masks, hitbox radius and position its owner
    /// supplies.
    pub fn add_source(
        &mut self,
        damage: i32,
        pierce: u32,
        cannot_pop_modifiers: u16,
        cannot_target_modifiers: u16,
        radius: i64,
        pos: Position,
    )
        requires
            sim_wf(*old(self)),
            0 <= damage <= 1000000,
            0 <= radius <= RADIUS_LIMIT,
            position_wf(pos),
        ensures
            sim_wf(*final(self)),
            final(self).map == old(self).map,
            final(self).attackers@ == old(self).attackers@,
            final(self).pending_global@ == old(self).pending_global@,
            final(self).sources@.len() == old(self).sources@.len() + 1,
            forall|j: int|
                0 <= j < old(self).sources@.len() ==> (#[trigger] final(self).sources@[j]) == old(
                    self,
                ).sources@[j],
            ({
                let l = final(self).sources@.last()@;
                &&& l.dealer.damage == damage
                &&& l.dealer.pierce == pierce
                &&& l.dealer.hits.len() == 0
                &&& l.dealer.cannot_pop_modifiers == cannot_pop_modifiers
                &&& l.dealer.cannot_target_modifiers == cannot_target_modifiers
                &&& l.hitbox.radius == radius
                &&& l.pos == pos
                &&& !l.removed
            }),
    {
        let s = SourceEntity {
            dealer: DamageDealer {
                damage,
                pierce,
                hit_bloons: Vec::new(),
                cannot_pop_modifiers,
                cannot_target_modifiers,
            },
            hitbox: HitboxSimple { radius },
            pos,
            removed: false,
        };
        let ghost pre = self.sources@;
        self.sources.push(s);
        proof {
            lemma_source_views_push(pre, s);
            assert(sources_wf(source_views(self.sources@)));
        }
    }

    /// Queue a damage amount (with an optional status effect) against
    /// every currently alive attacker; it is resolved in the next tick's
    /// damage-application phase, together with targeted damage.
    pub fn apply_global_effect(
        &mut self,
        damage: i32,
        status_effect: Option<crate::bloon::BloonEffect>,
    )
        requires
            sim_wf(*old(self)),
            0 <= damage <= 1000000,
        ensures
            sim_wf(*final(self)),
            final(self).map == old(self).map,
            final(self).attackers@ == old(self).attackers@,
            final(self).sources@ == old(self).sources@,
            final(self).pending_global@ == old(self).pending_global@.push(
                crate::damage::GlobalDamageEvent { damage, status_effect },
            ),
    {
        self.pending_global.push(crate::damage::GlobalDamageEvent { damage, status_effect });
    }

    /// One simulation tick, in strictly ordered phases: movement, then the
    /// collision scan over the moved snapshot, then application of all
    /// queued damage (targeted first, then pending global effects), then
    /// split/replace, then terminal removal; spent damage sources are
    /// taken out at the end. Returns every attacker removed this tick —
    /// destroyed ones first, then those that completed the road.
    pub fn tick(&mut self) -> (removed: Vec<AttackerEntity>)
        requires
            sim_wf(*old(self)),
        ensures
            sim_wf(*final(self)),
            final(self).map == old(self).map,
            final(self).table == old(self).table,
            final(self).pending_global@.len() == 0,
            ({
                let m = old(self).map;
                let vs1 = spec_moved(m, attacker_views(old(self).attackers@));
                let srcs0 = source_views(old(self).sources@);
                let evs = spec_all_events(srcs0, vs1, srcs0.len() as int) + spec_global_expand(
                    old(self).pending_global@,
                    vs1,
                    old(self).pending_global@.len() as int,
                );
                let vs2 = spec_applied(vs1, evs);
                let popped = spec_pop_main(m, vs2, vs2.len() as int) + spec_pop_spawned(
                    m,
                    vs2,
                    vs2.len() as int,
                );
                &&& attacker_views(final(self).attackers@) == spec_survivors(
                    m,
                    popped,
                    popped.len() as int,
                )
                &&& attacker_views(removed@) == spec_pop_removed(vs2, vs2.len() as int)
                    + spec_exited(m, popped, popped.len() as int)
                &&& source_views(final(self).sources@) == spec_live_sources(
                    spec_scanned(srcs0, vs1),
                    srcs0.len() as int,
                )
            }),
    {
        let ghost m = self.map;
        let ghost vs0 = attacker_views(self.attackers@);
        let ghost srcs0 = source_views(self.sources@);
        let ghost gs0 = self.pending_global@;

        move_along_road(&self.map, &mut self.attackers);
        let ghost vs1 = attacker_views(self.attackers@);
        proof {
            assert forall|j: int| 0 <= j < self.attackers@.len() implies position_wf(
                #[trigger] self.attackers@[j]@.pos,
            ) && hitbox_wf(self.attackers@[j]@.hitbox) by {
                assert(attacker_views(self.attackers@)[j] == self.attackers@[j]@);
                assert(attacker_wf(vs1[j], self.map));
            }
        }

        let mut events = damage_bloons(&mut self.sources, &self.attackers);
        let mut gevents = global_damage_effects(&self.pending_global, &self.attackers);
        events.append(&mut gevents);
        self.pending_global.clear();
        let ghost evs = events@;
        proof {
            lemma_all_events_nonneg(srcs0, vs1, srcs0.len() as int);
            lemma_global_expand_nonneg(gs0, vs1, gs0.len() as int);
        }

        apply_bloon_damage(&mut self.attackers, &events);
        let ghost vs2 = spec_applied(vs1, evs);
        proof {
            assert(attacker_views(self.attackers@) =~= vs2);
            assert forall|j: int| 0 <= j < vs2.len() implies attacker_wf(
                #[trigger] vs2[j],
                self.map,
            ) by {
                assert(attacker_wf(vs1[j], self.map));
            }
        }

        let removed1 = pop_bloons(&self.map, &self.table, &mut self.attackers);
        let mut removed2 = despawn_exited_road_entities(&self.map, &mut self.attackers);
        proof {
            assert(source_views(self.sources@) =~= spec_scanned(srcs0, vs1));
        }
        remove_spent_sources(&mut self.sources);

        let mut removed = removed1;
        removed.append(&mut removed2);
        proof {
            assert(attacker_views(removed@) =~= spec_pop_removed(vs2, vs2.len() as int)
                + spec_exited(
                m,
                spec_pop_main(m, vs2, vs2.len() as int) + spec_pop_spawned(
                    m,
                    vs2,
                    vs2.len() as int,
                ),
                (spec_pop_main(m, vs2, vs2.len() as int) + spec_pop_spawned(
                    m,
                    vs2,
                    vs2.len() as int,
                )).len() as int,
            ));
        }
        removed
    }
}

/// The view of a collection extended by one entity is the collection's
/// views extended by the entity's view.
proof fn lemma_views_push(s: Seq<AttackerEntity>, a: AttackerEntity)
    ensures
        attacker_views(s.push(a)) == attacker_views(s).push(a@),
{
    assert(attacker_views(s.push(a)) =~= attacker_views(s).push(a@));
}

/// Every survivor of the terminal-removal phase was in the input, so
/// well-formedness carries over.
proof fn lemma_survivors_wf(m: RoadMap, s: Seq<AttackerView>, k: int)
    requires
        k <= s.len(),
    ensures
        attackers_wf(s, m) ==> attackers_wf(spec_survivors(m, s, k), m),
    decreases k,
{
    if k > 0 {
        lemma_survivors_wf(m, s, k - 1);
    }
}

} // verus!
