//! Damage-side data: damage sources with pierce and a lineage hit list,
//! damage flavors and their modifier exclusions, hitboxes, and the queued
//! damage events the collision pass emits.

use crate::bloon::{
    BloonEffect, MODIFIER_BLACK, MODIFIER_FROZEN, MODIFIER_LEAD, MODIFIER_PURPLE, MODIFIER_WHITE,
};
use crate::lineage::{spec_same_lineage, BloonID};
use crate::map::{position_wf, Position};
use vstd::prelude::*;

verus! {

/// Largest hitbox radius a well-formed entity carries.
pub const RADIUS_LIMIT: i64 = 0x20_0000;

/// Damage flavors: each one names the modifier classes it cannot affect.
#[derive(PartialEq, Eq, Structural, Clone, Copy, Debug)]
pub enum DamageType {
    /// Damages every class.
    Normal,
    /// Cannot damage the sharp-resistant (lead) class.
    Shatter,
    /// Cannot damage the explosion-resistant (black) class.
    Explosion,
    /// Cannot damage the cold-resistant (white) class.
    Frigid,
    /// Cannot damage the magic-resistant (purple) class.
    Magic,
    /// Cannot damage the lead or purple classes.
    Energy,
    /// Cannot damage the lead class or frozen attackers.
    Sharp,
    /// Cannot damage the lead or white classes.
    Cold,
}

/// The modifier flags a damage type cannot affect.
pub open spec fn spec_damage_type_mask(d: DamageType) -> u16 {
    match d {
        DamageType::Normal => 0,
        DamageType::Shatter => MODIFIER_LEAD,
        DamageType::Explosion => MODIFIER_BLACK,
        DamageType::Frigid => MODIFIER_WHITE,
        DamageType::Magic => MODIFIER_PURPLE,
        DamageType::Energy => MODIFIER_LEAD | MODIFIER_PURPLE,
        DamageType::Sharp => MODIFIER_LEAD | MODIFIER_FROZEN,
        DamageType::Cold => MODIFIER_LEAD | MODIFIER_WHITE,
    }
}

impl DamageType {
    /// The modifier flags this damage type cannot affect, as a mask usable
    /// for a damage source's exclusion fields.
    pub fn to_modifier_mask(&self) -> (r: u16)
        ensures
            r == spec_damage_type_mask(*self),
    {
        match self {
            DamageType::Normal => 0,
            DamageType::Shatter => MODIFIER_LEAD,
            DamageType::Explosion => MODIFIER_BLACK,
            DamageType::Frigid => MODIFIER_WHITE,
            DamageType::Magic => MODIFIER_PURPLE,
            DamageType::Energy => MODIFIER_LEAD | MODIFIER_PURPLE,
            DamageType::Sharp => MODIFIER_LEAD | MODIFIER_FROZEN,
            DamageType::Cold => MODIFIER_LEAD | MODIFIER_WHITE,
        }
    }
}

/// A circular hitbox.
#[derive(PartialEq, Eq, Structural, Clone, Copy, Debug)]
pub struct HitboxSimple {
    pub radius: i64,
}

/// A well-formed hitbox: a bounded, non-negative radius.
pub open spec fn hitbox_wf(h: HitboxSimple) -> bool {
    0 <= h.radius <= RADIUS_LIMIT
}

/// Allows an entity to deal piercing damage to attackers.
#[derive(Clone, Debug)]
pub struct DamageDealer {
    /// Damage dealt per hit.
    pub damage: i32,
    /// Hits still available before this source is consumed.
    pub pierce: u32,
    /// Lineage identities already credited as hit by this source.
    pub hit_bloons: Vec<BloonID>,
    /// Modifier flags of attackers this source cannot damage.
    pub cannot_pop_modifiers: u16,
    /// Modifier flags of attackers this source cannot target at all.
    pub cannot_target_modifiers: u16,
}

/// Mathematical view of a damage source.
pub ghost struct DealerView {
    pub damage: i32,
    pub pierce: u32,
    pub hits: Seq<BloonID>,
    pub cannot_pop_modifiers: u16,
    pub cannot_target_modifiers: u16,
}

impl View for DamageDealer {
    type V = DealerView;

    open spec fn view(&self) -> DealerView {
        DealerView {
            damage: self.damage,
            pierce: self.pierce,
            hits: self.hit_bloons@,
            cannot_pop_modifiers: self.cannot_pop_modifiers,
            cannot_target_modifiers: self.cannot_target_modifiers,
        }
    }
}

/// A well-formed damage source: non-negative, bounded damage per hit.
pub open spec fn dealer_wf(d: DealerView) -> bool {
    0 <= d.damage <= 1000000
}

/// Whether a hit list already credits a hit against `b`'s lineage.
pub open spec fn spec_has_hit(hits: Seq<BloonID>, b: BloonID) -> bool {
    exists|k: int| 0 <= k < hits.len() && spec_same_lineage(#[trigger] hits[k], b)
}

impl DamageDealer {
    /// True iff this source has already credited a hit against the lineage
    /// of `bloon`: some recorded identity is in the same subtree.
    pub fn has_hit(&self, bloon: &BloonID) -> (r: bool)
        ensures
            r == spec_has_hit(self@.hits, *bloon),
    {
        let n = self.hit_bloons.len();
        let mut i: usize = 0;
        while i < n
            invariant
                n == self.hit_bloons@.len(),
                i <= n,
                forall|k: int| 0 <= k < i ==> !spec_same_lineage(#[trigger] self.hit_bloons@[k], *bloon),
            decreases n - i,
        {
            if self.hit_bloons[i].same_subtree_as(bloon) {
                return true;
            }
            i = i + 1;
        }
        false
    }
}

/// A hit list that blocks an attacker keeps blocking everything the
/// attacker splits into: if some recorded identity `h` is in the lineage
/// of `p` and no deeper, then every child derived from `p` — whatever its
/// sibling index and count — is blocked by the same hit list. This is what
/// prevents a source from re-hitting, on a later tick, the descendants of
/// a bloon it already credited.
pub proof fn lemma_descendants_still_blocked(
    hits: Seq<BloonID>,
    h: BloonID,
    p: BloonID,
    i: nat,
    n: nat,
)
    requires
        hits.contains(h),
        spec_same_lineage(h, p),
        h.layer <= p.layer,
        1 <= n,
        i < n,
        p.layer as nat + crate::lineage::spec_bits_for(n) <= 32,
    ensures
        spec_has_hit(hits, crate::lineage::spec_derive_child(p, i, n)),
{
    crate::lineage::lemma_hit_prefix_blocks_descendants(h, p, i, n);
    let k = choose|k: int| 0 <= k < hits.len() && hits[k] == h;
    assert(spec_same_lineage(hits[k], crate::lineage::spec_derive_child(p, i, n)));
}

/// Circle-circle overlap: the Euclidean distance between the centers is
/// strictly below the sum of the radii, stated without square roots as a
/// comparison of squares.
pub open spec fn spec_overlaps(p1: Position, r1: int, p2: Position, r2: int) -> bool {
    let dx = p1.x - p2.x;
    let dy = p1.y - p2.y;
    dx * dx + dy * dy < (r1 + r2) * (r1 + r2)
}

/// Executable circle-circle test, with a cheap bounding-box rejection
/// before the exact comparison of squares.
pub fn hitboxes_overlap(p1: &Position, r1: i64, p2: &Position, r2: i64) -> (r: bool)
    requires
        position_wf(*p1),
        position_wf(*p2),
        0 <= r1 <= RADIUS_LIMIT,
        0 <= r2 <= RADIUS_LIMIT,
    ensures
        r == spec_overlaps(*p1, r1 as int, *p2, r2 as int),
{
    let crit = r1 + r2;
    let dx = p1.x - p2.x;
    let dy = p1.y - p2.y;
    if dx >= crit || -dx >= crit || dy >= crit || -dy >= crit {
        proof {
            lemma_square_ordered(crit as int, dx as int, dy as int);
        }
        return false;
    }
    proof {
        lemma_square_bounded(dx as int);
        lemma_square_bounded(dy as int);
        lemma_square_bounded(crit as int);
    }
    dx * dx + dy * dy < crit * crit
}

/// If one displacement component already reaches the critical distance,
/// the squared distance reaches the squared critical distance.
proof fn lemma_square_ordered(crit: int, dx: int, dy: int)
    requires
        crit >= 0,
    ensures
        (dx >= crit || -dx >= crit || dy >= crit || -dy >= crit) ==> dx * dx + dy * dy >= crit
            * crit,
{
    assert((dx >= crit || -dx >= crit || dy >= crit || -dy >= crit) ==> dx * dx + dy * dy >= crit
        * crit) by (nonlinear_arith)
        requires
            crit >= 0,
    ;
}

/// Squares of bounded displacements stay comfortably inside `i64`.
proof fn lemma_square_bounded(d: int)
    requires
        -0x100_0000 <= d <= 0x100_0000,
    ensures
        0 <= d * d <= 0x1_0000_0000_0000,
{
    assert(0 <= d * d <= 0x1_0000_0000_0000) by (nonlinear_arith)
        requires
            -0x100_0000 <= d <= 0x100_0000,
    ;
}

/// A queued damage application against one attacker, identified by its
/// index in the attacker collection.
#[derive(PartialEq, Eq, Clone, Copy, Debug)]
pub struct BloonDamageEvent {
    pub damage: i32,
    pub status_effect: Option<BloonEffect>,
    pub bloon: usize,
}

/// A queued damage application against every currently alive attacker.
#[derive(PartialEq, Eq, Clone, Copy, Debug)]
pub struct GlobalDamageEvent {
    pub damage: i32,
    pub status_effect: Option<BloonEffect>,
}

} // verus!
