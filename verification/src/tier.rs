//! The tier catalog: every attacker rank with its base stats and the ordered
//! list of child tiers produced by a normal (non-overkill) split.
//!
//! All entries are pure functions of the tier value. The catalog forms a
//! finite, cycle-free splitting forest: every child of a tier sits strictly
//! lower in the hierarchy, which `lemma_children_shallower` states and proves.

use vstd::prelude::*;

verus! {

/// An attacker's rank, weakest to strongest along the splitting hierarchy.
#[derive(PartialEq, Eq, Structural, Clone, Copy, Debug)]
pub enum BloonTier {
    Red,
    Blue,
    Green,
    Yellow,
    Pink,
    Purple,
    Black,
    White,
    Zebra,
    Lead,
    Rainbow,
    Ceramic,
    MOAB,
    BFB,
    ZOMG,
    DDT,
    BAD,
}

/// Coarse category of a tier, deciding how damage sources and the overkill
/// table treat it.
#[derive(PartialEq, Eq, Structural, Clone, Copy, Debug)]
pub enum BloonType {
    Bloon,
    Blimp,
    Boss,
}

/// Category of each tier: the five largest ranks are blimps, the rest are
/// ordinary bloons.
pub open spec fn spec_type(t: BloonTier) -> BloonType {
    match t {
        BloonTier::MOAB | BloonTier::BFB | BloonTier::ZOMG | BloonTier::DDT | BloonTier::BAD =>
            BloonType::Blimp,
        _ => BloonType::Bloon,
    }
}

/// Base speed of a tier, in distance units per simulation tick
/// (one world pixel is 540 units).
pub open spec fn spec_base_speed(t: BloonTier) -> int {
    match t {
        BloonTier::Red => 100,
        BloonTier::Blue => 140,
        BloonTier::Green => 180,
        BloonTier::Yellow => 320,
        BloonTier::Pink => 350,
        BloonTier::Purple => 300,
        BloonTier::Black => 180,
        BloonTier::White => 200,
        BloonTier::Zebra => 180,
        BloonTier::Lead => 100,
        BloonTier::Rainbow => 220,
        BloonTier::Ceramic => 250,
        BloonTier::MOAB => 100,
        BloonTier::BFB => 25,
        BloonTier::ZOMG => 18,
        BloonTier::DDT => 264,
        BloonTier::BAD => 18,
    }
}

/// Base health of a tier, before any fortified multiplier.
pub open spec fn spec_base_hp(t: BloonTier) -> int {
    match t {
        BloonTier::Red => 1,
        BloonTier::Blue => 1,
        BloonTier::Green => 1,
        BloonTier::Yellow => 1,
        BloonTier::Pink => 1,
        BloonTier::Purple => 1,
        BloonTier::Black => 1,
        BloonTier::White => 1,
        BloonTier::Zebra => 1,
        BloonTier::Lead => 1,
        BloonTier::Rainbow => 1,
        BloonTier::Ceramic => 10,
        BloonTier::MOAB => 200,
        BloonTier::BFB => 700,
        BloonTier::ZOMG => 4000,
        BloonTier::DDT => 400,
        BloonTier::BAD => 20000,
    }
}

/// Health multiplier applied once, at spawn, to a fortified instance.
pub open spec fn spec_fortified_mult(t: BloonTier) -> int {
    match t {
        BloonTier::Lead => 4,
        _ => 2,
    }
}

/// Hitbox radius of a tier, in distance units (one world pixel is 540 units).
pub open spec fn spec_hitbox_radius(t: BloonTier) -> int {
    match t {
        BloonTier::MOAB => 27000,
        BloonTier::BFB => 40500,
        BloonTier::ZOMG => 54000,
        BloonTier::DDT => 27000,
        BloonTier::BAD => 81000,
        _ => 13500,
    }
}

/// Ordered child list produced by a normal split. Children with fewer total
/// descendants are listed last, so the in-place replacement slot (index 0)
/// favors the branch with more remaining work.
pub open spec fn spec_children(t: BloonTier) -> Seq<BloonTier> {
    match t {
        BloonTier::Red => seq![],
        BloonTier::Blue => seq![BloonTier::Red],
        BloonTier::Green => seq![BloonTier::Blue],
        BloonTier::Yellow => seq![BloonTier::Green],
        BloonTier::Pink => seq![BloonTier::Yellow],
        BloonTier::Purple => seq![BloonTier::Pink, BloonTier::Pink],
        BloonTier::Black => seq![BloonTier::Pink, BloonTier::Pink],
        BloonTier::White => seq![BloonTier::Pink, BloonTier::Pink],
        BloonTier::Zebra => seq![BloonTier::Black, BloonTier::White],
        BloonTier::Lead => seq![BloonTier::Black, BloonTier::Black],
        BloonTier::Rainbow => seq![BloonTier::Zebra, BloonTier::Zebra],
        BloonTier::Ceramic => seq![BloonTier::Rainbow, BloonTier::Rainbow],
        BloonTier::MOAB => seq![
            BloonTier::Ceramic,
            BloonTier::Ceramic,
            BloonTier::Ceramic,
            BloonTier::Ceramic,
        ],
        BloonTier::BFB => seq![BloonTier::MOAB, BloonTier::MOAB, BloonTier::MOAB, BloonTier::MOAB],
        BloonTier::ZOMG => seq![BloonTier::BFB, BloonTier::BFB, BloonTier::BFB, BloonTier::BFB],
        BloonTier::DDT => seq![
            BloonTier::Ceramic,
            BloonTier::Ceramic,
            BloonTier::Ceramic,
            BloonTier::Ceramic,
        ],
        BloonTier::BAD => seq![
            BloonTier::ZOMG,
            BloonTier::ZOMG,
            BloonTier::DDT,
            BloonTier::DDT,
            BloonTier::DDT,
        ],
    }
}

/// Height of a tier in the splitting forest: 0 for the weakest tier, and
/// strictly more than the height of every child. It serves as the termination
/// measure for recursion over descendants.
pub open spec fn tier_depth(t: BloonTier) -> nat {
    match t {
        BloonTier::Red => 0,
        BloonTier::Blue => 1,
        BloonTier::Green => 2,
        BloonTier::Yellow => 3,
        BloonTier::Pink => 4,
        BloonTier::Purple => 5,
        BloonTier::Black => 5,
        BloonTier::White => 5,
        BloonTier::Zebra => 6,
        BloonTier::Lead => 6,
        BloonTier::Rainbow => 7,
        BloonTier::Ceramic => 8,
        BloonTier::MOAB => 9,
        BloonTier::BFB => 10,
        BloonTier::ZOMG => 11,
        BloonTier::DDT => 9,
        BloonTier::BAD => 12,
    }
}

/// The split invariant of the catalog: every child of a tier sits strictly
/// lower in the splitting hierarchy, so the forest is cycle-free.
pub proof fn lemma_children_shallower(t: BloonTier)
    ensures
        forall|i: int|
            0 <= i < spec_children(t).len() ==> tier_depth(
                #[trigger] spec_children(t)[i],
            ) < tier_depth(t),
{
    assert forall|i: int| 0 <= i < spec_children(t).len() implies tier_depth(
        #[trigger] spec_children(t)[i],
    ) < tier_depth(t) by {
        match t {
            BloonTier::Red => {},
            _ => {
                assert(spec_children(t).len() <= 5);
            },
        }
    }
}

/// Every tier other than the weakest has a non-empty child list.
pub proof fn lemma_children_nonempty(t: BloonTier)
    ensures
        t != BloonTier::Red ==> spec_children(t).len() > 0,
{
}

/// The most lineage-path bits any chain of normal splits starting from `t`
/// can still consume before it bottoms out at the weakest tier.
pub open spec fn lineage_bits_needed(t: BloonTier) -> nat {
    match t {
        BloonTier::Red => 0,
        BloonTier::Blue => 0,
        BloonTier::Green => 0,
        BloonTier::Yellow => 0,
        BloonTier::Pink => 0,
        BloonTier::Purple => 1,
        BloonTier::Black => 1,
        BloonTier::White => 1,
        BloonTier::Zebra => 2,
        BloonTier::Lead => 2,
        BloonTier::Rainbow => 3,
        BloonTier::Ceramic => 4,
        BloonTier::MOAB => 6,
        BloonTier::BFB => 8,
        BloonTier::ZOMG => 10,
        BloonTier::DDT => 6,
        BloonTier::BAD => 13,
    }
}

/// The catalog respects the lineage budget: one normal split of `t`
/// consumes its sibling bits and leaves each child with enough budget for
/// everything below it — and no budget exceeds 13 bits, far below the
/// 32-bit path width. Branching depth is therefore capped by the catalog
/// design itself, never handled per instance.
pub proof fn lemma_catalog_bits_budget(t: BloonTier)
    ensures
        lineage_bits_needed(t) <= 13,
        forall|i: int|
            0 <= i < spec_children(t).len() ==> crate::lineage::spec_bits_for(
                spec_children(t).len(),
            ) + lineage_bits_needed(#[trigger] spec_children(t)[i]) <= lineage_bits_needed(t),
{
    reveal_with_fuel(crate::lineage::spec_bits_for, 5);
    assert(crate::lineage::spec_bits_for(0) == 0);
    assert(crate::lineage::spec_bits_for(1) == 0);
    assert(crate::lineage::spec_bits_for(2) == 1);
    assert(crate::lineage::spec_bits_for(4) == 2);
    assert(crate::lineage::spec_bits_for(5) == 3);
}

impl BloonTier {
    /// Coarse category of this tier.
    pub fn get_type(&self) -> (r: BloonType)
        ensures
            r == spec_type(*self),
    {
        match self {
            BloonTier::MOAB | BloonTier::BFB | BloonTier::ZOMG | BloonTier::DDT
            | BloonTier::BAD => BloonType::Blimp,
            _ => BloonType::Bloon,
        }
    }

    /// Base speed in distance units per tick.
    pub fn get_base_speed(&self) -> (r: i64)
        ensures
            r == spec_base_speed(*self),
    {
        match self {
            BloonTier::Red => 100,
            BloonTier::Blue => 140,
            BloonTier::Green => 180,
            BloonTier::Yellow => 320,
            BloonTier::Pink => 350,
            BloonTier::Purple => 300,
            BloonTier::Black => 180,
            BloonTier::White => 200,
            BloonTier::Zebra => 180,
            BloonTier::Lead => 100,
            BloonTier::Rainbow => 220,
            BloonTier::Ceramic => 250,
            BloonTier::MOAB => 100,
            BloonTier::BFB => 25,
            BloonTier::ZOMG => 18,
            BloonTier::DDT => 264,
            BloonTier::BAD => 18,
        }
    }

    /// Base health, before any fortified multiplier.
    pub fn get_base_hp(&self) -> (r: i32)
        ensures
            r == spec_base_hp(*self),
    {
        match self {
            BloonTier::Red => 1,
            BloonTier::Blue => 1,
            BloonTier::Green => 1,
            BloonTier::Yellow => 1,
            BloonTier::Pink => 1,
            BloonTier::Purple => 1,
            BloonTier::Black => 1,
            BloonTier::White => 1,
            BloonTier::Zebra => 1,
            BloonTier::Lead => 1,
            BloonTier::Rainbow => 1,
            BloonTier::Ceramic => 10,
            BloonTier::MOAB => 200,
            BloonTier::BFB => 700,
            BloonTier::ZOMG => 4000,
            BloonTier::DDT => 400,
            BloonTier::BAD => 20000,
        }
    }

    /// Spawn-time health multiplier for fortified instances.
    pub fn get_fortified_hp_mult(&self) -> (r: i32)
        ensures
            r == spec_fortified_mult(*self),
    {
        match self {
            BloonTier::Lead => 4,
            _ => 2,
        }
    }

    /// Hitbox radius in distance units.
    pub fn get_base_hitbox_radius(&self) -> (r: i64)
        ensures
            r == spec_hitbox_radius(*self),
    {
        match self {
            BloonTier::MOAB => 27000,
            BloonTier::BFB => 40500,
            BloonTier::ZOMG => 54000,
            BloonTier::DDT => 27000,
            BloonTier::BAD => 81000,
            _ => 13500,
        }
    }

    /// Ordered child tier list produced by a normal split.
    pub fn get_base_child_bloons(&self) -> (r: Vec<BloonTier>)
        ensures
            r@ == spec_children(*self),
    {
        let mut v: Vec<BloonTier> = Vec::new();
        match self {
            BloonTier::Red => {},
            BloonTier::Blue => {
                v.push(BloonTier::Red);
            },
            BloonTier::Green => {
                v.push(BloonTier::Blue);
            },
            BloonTier::Yellow => {
                v.push(BloonTier::Green);
            },
            BloonTier::Pink => {
                v.push(BloonTier::Yellow);
            },
            BloonTier::Purple => {
                v.push(BloonTier::Pink);
                v.push(BloonTier::Pink);
            },
            BloonTier::Black => {
                v.push(BloonTier::Pink);
                v.push(BloonTier::Pink);
            },
            BloonTier::White => {
                v.push(BloonTier::Pink);
                v.push(BloonTier::Pink);
            },
            BloonTier::Zebra => {
                v.push(BloonTier::Black);
                v.push(BloonTier::White);
            },
            BloonTier::Lead => {
                v.push(BloonTier::Black);
                v.push(BloonTier::Black);
            },
            BloonTier::Rainbow => {
                v.push(BloonTier::Zebra);
                v.push(BloonTier::Zebra);
            },
            BloonTier::Ceramic => {
                v.push(BloonTier::Rainbow);
                v.push(BloonTier::Rainbow);
            },
            BloonTier::MOAB => {
                v.push(BloonTier::Ceramic);
                v.push(BloonTier::Ceramic);
                v.push(BloonTier::Ceramic);
                v.push(BloonTier::Ceramic);
            },
            BloonTier::BFB => {
                v.push(BloonTier::MOAB);
                v.push(BloonTier::MOAB);
                v.push(BloonTier::MOAB);
                v.push(BloonTier::MOAB);
            },
            BloonTier::ZOMG => {
                v.push(BloonTier::BFB);
                v.push(BloonTier::BFB);
                v.push(BloonTier::BFB);
                v.push(BloonTier::BFB);
            },
            BloonTier::DDT => {
                v.push(BloonTier::Ceramic);
                v.push(BloonTier::Ceramic);
                v.push(BloonTier::Ceramic);
                v.push(BloonTier::Ceramic);
            },
            BloonTier::BAD => {
                v.push(BloonTier::ZOMG);
                v.push(BloonTier::ZOMG);
                v.push(BloonTier::DDT);
                v.push(BloonTier::DDT);
                v.push(BloonTier::DDT);
            },
        }
        proof {
            assert(v@ =~= spec_children(*self));
        }
        v
    }
}

} // verus!
