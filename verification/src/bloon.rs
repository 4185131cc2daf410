//! Attacker instances: tier, signed health, modifier flags, timed status
//! effects and a lineage identity.
//!
//! Negative health records the overkill magnitude accumulated when an
//! attacker is destroyed. Modifier flags are derived deterministically from
//! the tier at spawn and inherited unchanged into children; the fortified
//! flag multiplies the spawned instance's health once, at spawn time, and —
//! as a deliberate design decision — does so again for every freshly spawned
//! descendant that still carries the flag, while overkill resolution always
//! works on unfortified base health.

use crate::lineage::{
    id_wf, spec_bits_for, spec_derive_child, BloonID,
};
use crate::tier::{
    spec_base_hp, spec_children, spec_fortified_mult, BloonTier,
};
use vstd::prelude::*;

verus! {

/// A set of modifier flags, as a bitmask.
pub type BloonModifier = u16;

/// Resists sharp damage (the lead class).
pub const MODIFIER_LEAD: u16 = 0x1;

/// Resists magic damage (the purple class).
pub const MODIFIER_PURPLE: u16 = 0x2;

/// Resists explosions (the black class).
pub const MODIFIER_BLACK: u16 = 0x4;

/// Resists cold damage (the white class).
pub const MODIFIER_WHITE: u16 = 0x8;

/// Currently frozen.
pub const MODIFIER_FROZEN: u16 = 0x10;

/// Camouflaged: only sources with detection may target it.
pub const MODIFIER_CAMO: u16 = 0x20;

/// Fortified: spawn health is multiplied once, at spawn time.
pub const MODIFIER_FORTIFIED: u16 = 0x40;

/// Timed status effects an attacker can carry. Duration counts simulation
/// ticks; strengths are integers (speed strength in thousandths of the
/// normal rate).
#[derive(PartialEq, Eq, Structural, Clone, Copy, Debug)]
pub enum BloonEffect {
    Weakness { strength: i32, duration: i32 },
    Speed { strength: i32, duration: i32 },
    BonusIncome { strength: i32, duration: i32 },
}

/// Modifier flags an instance of `t` gains at spawn, on top of the inherited
/// flags `base`.
pub open spec fn spec_spawn_modifiers(t: BloonTier, base: u16) -> u16 {
    match t {
        BloonTier::Purple => base | MODIFIER_PURPLE,
        BloonTier::Black => base | MODIFIER_BLACK,
        BloonTier::White => base | MODIFIER_WHITE,
        BloonTier::Zebra => base | MODIFIER_BLACK | MODIFIER_WHITE,
        BloonTier::Lead => base | MODIFIER_LEAD,
        BloonTier::DDT => base | MODIFIER_LEAD | MODIFIER_CAMO,
        _ => base,
    }
}

/// Spawn health of an instance of `t` carrying modifier flags `mods`: the
/// base health, multiplied once if the fortified flag is set.
pub open spec fn spec_spawn_hp(t: BloonTier, mods: u16) -> int {
    if mods & MODIFIER_FORTIFIED != 0 {
        spec_base_hp(t) * spec_fortified_mult(t)
    } else {
        spec_base_hp(t)
    }
}

/// The attacker instance: what damage sources hit and splits replace.
#[derive(Clone, Debug)]
pub struct Bloon {
    /// Lineage identity, assigned at spawn and advanced at each split.
    pub bid: BloonID,
    /// Remaining health; a negative value is the accumulated overkill
    /// magnitude.
    pub hp: i32,
    /// Modifier flags, inherited unchanged into children.
    pub modifiers: BloonModifier,
    /// Active timed status effects.
    pub effects: Vec<BloonEffect>,
    /// The attacker's rank in the catalog.
    pub tier: BloonTier,
}

/// Mathematical view of an attacker instance.
pub ghost struct BloonView {
    pub bid: BloonID,
    pub hp: i32,
    pub modifiers: u16,
    pub effects: Seq<BloonEffect>,
    pub tier: BloonTier,
}

impl View for Bloon {
    type V = BloonView;

    open spec fn view(&self) -> BloonView {
        BloonView {
            bid: self.bid,
            hp: self.hp,
            modifiers: self.modifiers,
            effects: self.effects@,
            tier: self.tier,
        }
    }
}

/// The instance a split-produced descendant must equal: its tier at index
/// `k` of the resolved tier list, modifiers re-derived from the inherited
/// flags, fresh spawn health, no effects, and the parent's lineage identity
/// extended by the child's sibling index.
pub open spec fn spec_split_instance_matches(
    parent: Bloon,
    child: Bloon,
    tiers: Seq<BloonTier>,
    k: nat,
) -> bool {
    &&& child.tier == tiers[k as int]
    &&& child.bid == spec_derive_child(parent.bid, k, tiers.len())
    &&& child.modifiers == spec_spawn_modifiers(child.tier, parent.modifiers)
    &&& child.hp == spec_spawn_hp(child.tier, child.modifiers)
    &&& child.effects@.len() == 0
}

/// An attacker whose identity still has budget for every normal split
/// below its tier (`layer + lineage_bits_needed(tier) <= 32`) can always
/// split: the sibling bits fit the path, and every child keeps the same
/// budget in turn. Root spawns start at layer 0 with a budget of at most
/// 13 bits, so no chain of normal splits can ever exhaust the path.
pub proof fn lemma_normal_split_within_budget(layer: u8, t: BloonTier)
    requires
        layer as nat + crate::tier::lineage_bits_needed(t) <= 32,
    ensures
        layer as nat + spec_bits_for(spec_children(t).len()) <= 32,
        forall|i: int|
            0 <= i < spec_children(t).len() ==> layer as nat + spec_bits_for(
                spec_children(t).len(),
            ) + crate::tier::lineage_bits_needed(#[trigger] spec_children(t)[i]) <= 32,
{
    crate::tier::lemma_catalog_bits_budget(t);
    if spec_children(t).len() > 0 {
        assert(spec_bits_for(spec_children(t).len()) + crate::tier::lineage_bits_needed(
            spec_children(t)[0],
        ) <= crate::tier::lineage_bits_needed(t));
    } else {
        crate::lineage::lemma_bits_for_le(0, 0);
        vstd::arithmetic::power2::lemma2_to64();
    }
}

impl Bloon {
    /// A fresh instance of `tier` carrying the flags `modifiers` (plus the
    /// tier's own spawn flags), with a brand-new root lineage identity.
    pub fn with(tier: BloonTier, modifiers: BloonModifier) -> (r: Bloon)
        ensures
            r.tier == tier,
            r.modifiers == spec_spawn_modifiers(tier, modifiers),
            r.hp == spec_spawn_hp(tier, r.modifiers),
            r.bid.layer == 0,
            r.bid.tree == 0,
            id_wf(r.bid),
            r.effects@.len() == 0,
    {
        let modifiers: u16 = match tier {
            BloonTier::Purple => modifiers | MODIFIER_PURPLE,
            BloonTier::Black => modifiers | MODIFIER_BLACK,
            BloonTier::White => modifiers | MODIFIER_WHITE,
            BloonTier::Zebra => modifiers | MODIFIER_BLACK | MODIFIER_WHITE,
            BloonTier::Lead => modifiers | MODIFIER_LEAD,
            BloonTier::DDT => modifiers | MODIFIER_LEAD | MODIFIER_CAMO,
            _ => modifiers,
        };
        let base_hp = tier.get_base_hp();
        let hp_mult: i32 = if (modifiers & MODIFIER_FORTIFIED) != 0 {
            tier.get_fortified_hp_mult()
        } else {
            1
        };
        Bloon {
            hp: base_hp * hp_mult,
            tier,
            modifiers,
            bid: BloonID::new(),
            effects: Vec::new(),
        }
    }

    /// Append a status effect.
    pub fn apply_effect(&mut self, effect: BloonEffect)
        ensures
            final(self).effects@ == old(self).effects@.push(effect),
            final(self).bid == old(self).bid,
            final(self).hp == old(self).hp,
            final(self).modifiers == old(self).modifiers,
            final(self).tier == old(self).tier,
    {
        self.effects.push(effect);
    }

    /// Advance this attacker's lineage identity for a split into `child_num`
    /// siblings of which it is number `i`. The only way `layer` grows.
    pub fn update_child_parent_tree(&mut self, i: usize, child_num: usize)
        requires
            1 <= child_num,
            i < child_num,
            old(self).bid.layer as nat + spec_bits_for(child_num as nat) <= 32,
        ensures
            final(self).bid == spec_derive_child(old(self).bid, i as nat, child_num as nat),
            final(self).hp == old(self).hp,
            final(self).modifiers == old(self).modifiers,
            final(self).effects@ == old(self).effects@,
            final(self).tier == old(self).tier,
    {
        self.bid = self.bid.derive_child(i, child_num);
    }

    /// Re-key this instance as child `child_i` of `parent`'s split into
    /// `total_children` siblings: it takes the parent's family and path,
    /// extended by its own sibling index.
    pub fn child_of(self, parent: &Bloon, child_i: usize, total_children: usize) -> (r: Self)
        requires
            1 <= total_children,
            child_i < total_children,
            parent.bid.layer as nat + spec_bits_for(total_children as nat) <= 32,
        ensures
            r.bid == spec_derive_child(parent.bid, child_i as nat, total_children as nat),
            r.hp == self.hp,
            r.modifiers == self.modifiers,
            r.effects@ == self.effects@,
            r.tier == self.tier,
    {
        let mut r = self;
        r.bid = parent.bid.derive_child(child_i, total_children);
        r
    }

    /// The instances a normal (non-overkill) split of this attacker
    /// produces: one per catalog child tier, with inherited modifiers, fresh
    /// spawn health and derived lineage identities. If the catalog asked for
    /// more identity bits than the 32-bit path still has — which the catalog
    /// bound keeps unreachable — no descendants are produced.
    pub fn get_child_bloons(&self) -> (r: Vec<Bloon>)
        ensures
            self.bid.layer as nat + spec_bits_for(spec_children(self.tier).len()) <= 32 ==> {
                &&& r@.len() == spec_children(self.tier).len()
                &&& forall|k: int|
                    0 <= k < r@.len() ==> spec_split_instance_matches(
                        *self,
                        #[trigger] r@[k],
                        spec_children(self.tier),
                        k as nat,
                    )
            },
            self.bid.layer as nat + spec_bits_for(spec_children(self.tier).len()) > 32 ==> r@.len()
                == 0,
    {
        let base_children = self.tier.get_base_child_bloons();
        let child_num = base_children.len();
        let mut actual_children: Vec<Bloon> = Vec::new();
        if child_num == 0 {
            return actual_children;
        }
        let bits = crate::lineage::bits_for(child_num);
        if (self.bid.layer as u32) + (bits as u32) > 32 {
            return actual_children;
        }
        let mut i: usize = 0;
        while i < child_num
            invariant
                base_children@ == spec_children(self.tier),
                child_num == base_children@.len(),
                self.bid.layer as nat + spec_bits_for(child_num as nat) <= 32,
                i <= child_num,
                actual_children@.len() == i,
                forall|k: int|
                    0 <= k < i ==> spec_split_instance_matches(
                        *self,
                        #[trigger] actual_children@[k],
                        spec_children(self.tier),
                        k as nat,
                    ),
            decreases child_num - i,
        {
            let ch = base_children[i];
            let child = Bloon::with(ch, self.modifiers).child_of(self, i, child_num);
            actual_children.push(child);
            i = i + 1;
        }
        actual_children
    }
}

} // verus!
