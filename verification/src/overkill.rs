//! Overkill resolution: which descendant tiers a destroyed attacker leaves
//! behind when the blow that destroyed it carried excess damage.
//!
//! The reference semantics (`spec_resolve`) subtracts the overkill magnitude
//! from each child's own base health; a child whose remainder is still
//! positive is consumed outright, one at exactly zero yields its normal
//! children, and a negative remainder recurses with the new magnitude —
//! flattening into the leaf generation the overkill actually reaches.
//!
//! Ordinary bloon tiers read a lookup table built once at startup, one row
//! per precomputed magnitude; blimp-class tiers, whose health pools make
//! precomputation impractical, always run the live recursion. A magnitude
//! past the precomputed rows falls back to the live recursion as well.

use crate::bloon::{spec_split_instance_matches, Bloon};
use crate::lineage::spec_bits_for;
use crate::tier::{
    lemma_children_shallower, spec_base_hp, spec_children, spec_type, tier_depth, BloonTier,
    BloonType,
};
use vstd::prelude::*;

verus! {

/// Largest overkill magnitude the table precomputes per tier. Every bloon
/// tier's splitting tree is shallower than this, so larger magnitudes
/// resolve to no descendants at all.
pub const TABLE_MAGNITUDES: usize = 16;

/// Descendant tiers produced by a destroyed attacker of tier `t` with
/// overkill magnitude `m` (reference semantics, order significant).
pub open spec fn spec_resolve(t: BloonTier, m: int) -> Seq<BloonTier>
    decreases tier_depth(t), 1int, 0int,
{
    if m <= 0 {
        spec_children(t)
    } else {
        spec_resolve_children(t, spec_children(t).len() as int, m)
    }
}

/// Flattened resolution of the first `k` children of `t` under overkill
/// magnitude `m > 0`, in child order.
pub open spec fn spec_resolve_children(t: BloonTier, k: int, m: int) -> Seq<BloonTier>
    decreases tier_depth(t), 0int, k,
{
    if k <= 0 || k > spec_children(t).len() {
        seq![]
    } else {
        let c = spec_children(t)[k - 1];
        let rem = spec_base_hp(c) - m;
        spec_resolve_children(t, k - 1, m) + (if rem <= 0 {
            spec_resolve(c, -rem)
        } else {
            seq![]
        })
    }
}

/// The live recursive computation of the reference semantics.
pub fn resolve_overkill_tiers(t: BloonTier, m: i64) -> (r: Vec<BloonTier>)
    requires
        0 <= m < 0x4000_0000_0000_0000,
    ensures
        r@ == spec_resolve(t, m as int),
    decreases tier_depth(t),
{
    let children = t.get_base_child_bloons();
    if m == 0 {
        return children;
    }
    let mut out: Vec<BloonTier> = Vec::new();
    let mut i: usize = 0;
    while i < children.len()
        invariant
            children@ == spec_children(t),
            0 < m < 0x4000_0000_0000_0000,
            i <= children@.len(),
            out@ == spec_resolve_children(t, i as int, m as int),
        decreases children@.len() - i,
    {
        let c = children[i];
        let rem: i64 = (c.get_base_hp() as i64) - m;
        if rem <= 0 {
            proof {
                lemma_children_shallower(t);
            }
            let mut sub = resolve_overkill_tiers(c, -rem);
            out.append(&mut sub);
        }
        i = i + 1;
    }
    out
}

/// Index of each tier in the lookup table, in catalog order.
pub open spec fn spec_tier_index(t: BloonTier) -> int {
    match t {
        BloonTier::Red => 0,
        BloonTier::Blue => 1,
        BloonTier::Green => 2,
        BloonTier::Yellow => 3,
        BloonTier::Pink => 4,
        BloonTier::Purple => 5,
        BloonTier::Black => 6,
        BloonTier::White => 7,
        BloonTier::Zebra => 8,
        BloonTier::Lead => 9,
        BloonTier::Rainbow => 10,
        BloonTier::Ceramic => 11,
        BloonTier::MOAB => 12,
        BloonTier::BFB => 13,
        BloonTier::ZOMG => 14,
        BloonTier::DDT => 15,
        BloonTier::BAD => 16,
    }
}

/// The tier stored at a table index.
pub open spec fn spec_tier_of_index(i: int) -> BloonTier {
    if i == 0 {
        BloonTier::Red
    } else if i == 1 {
        BloonTier::Blue
    } else if i == 2 {
        BloonTier::Green
    } else if i == 3 {
        BloonTier::Yellow
    } else if i == 4 {
        BloonTier::Pink
    } else if i == 5 {
        BloonTier::Purple
    } else if i == 6 {
        BloonTier::Black
    } else if i == 7 {
        BloonTier::White
    } else if i == 8 {
        BloonTier::Zebra
    } else if i == 9 {
        BloonTier::Lead
    } else if i == 10 {
        BloonTier::Rainbow
    } else if i == 11 {
        BloonTier::Ceramic
    } else if i == 12 {
        BloonTier::MOAB
    } else if i == 13 {
        BloonTier::BFB
    } else if i == 14 {
        BloonTier::ZOMG
    } else if i == 15 {
        BloonTier::DDT
    } else {
        BloonTier::BAD
    }
}

/// The two index maps invert each other.
pub proof fn lemma_tier_index_roundtrip()
    ensures
        forall|t: BloonTier| spec_tier_of_index(#[trigger] spec_tier_index(t)) == t,
        forall|t: BloonTier| 0 <= #[trigger] spec_tier_index(t) < 17,
{
}

/// Executable table index of a tier.
pub fn tier_index(t: BloonTier) -> (r: usize)
    ensures
        r == spec_tier_index(t),
        r < 17,
{
    match t {
        BloonTier::Red => 0,
        BloonTier::Blue => 1,
        BloonTier::Green => 2,
        BloonTier::Yellow => 3,
        BloonTier::Pink => 4,
        BloonTier::Purple => 5,
        BloonTier::Black => 6,
        BloonTier::White => 7,
        BloonTier::Zebra => 8,
        BloonTier::Lead => 9,
        BloonTier::Rainbow => 10,
        BloonTier::Ceramic => 11,
        BloonTier::MOAB => 12,
        BloonTier::BFB => 13,
        BloonTier::ZOMG => 14,
        BloonTier::DDT => 15,
        BloonTier::BAD => 16,
    }
}

/// Executable tier at a table index.
fn tier_of_index(i: usize) -> (r: BloonTier)
    requires
        i < 17,
    ensures
        r == spec_tier_of_index(i as int),
{
    if i == 0 {
        BloonTier::Red
    } else if i == 1 {
        BloonTier::Blue
    } else if i == 2 {
        BloonTier::Green
    } else if i == 3 {
        BloonTier::Yellow
    } else if i == 4 {
        BloonTier::Pink
    } else if i == 5 {
        BloonTier::Purple
    } else if i == 6 {
        BloonTier::Black
    } else if i == 7 {
        BloonTier::White
    } else if i == 8 {
        BloonTier::Zebra
    } else if i == 9 {
        BloonTier::Lead
    } else if i == 10 {
        BloonTier::Rainbow
    } else if i == 11 {
        BloonTier::Ceramic
    } else if i == 12 {
        BloonTier::MOAB
    } else if i == 13 {
        BloonTier::BFB
    } else if i == 14 {
        BloonTier::ZOMG
    } else if i == 15 {
        BloonTier::DDT
    } else {
        BloonTier::BAD
    }
}

/// The overkill lookup table: one entry per tier, holding the resolved
/// descendant list for each precomputed magnitude. Built once before any
/// tick runs and read-only thereafter. Blimp-class entries are left empty:
/// those tiers always use the live recursion.
pub struct OverkillLookupTable {
    /// `rows[spec_tier_index(t)][m]` is the resolution of `(t, m)`.
    pub rows: Vec<Vec<Vec<BloonTier>>>,
}

/// Well-formedness of the table: every stored row equals the reference
/// resolution for its (tier, magnitude) key.
pub open spec fn table_wf(tb: OverkillLookupTable) -> bool {
    &&& tb.rows@.len() == 17
    &&& forall|t: BloonTier, m: int|
        0 <= m < tb.rows@[spec_tier_index(t)]@.len() ==> (#[trigger] tb.rows@[spec_tier_index(
            t,
        )]@[m])@ == spec_resolve(t, m)
}

/// A fully built table: well-formed, with one row per precomputed
/// magnitude for every ordinary bloon tier, and none for the exempt
/// blimp-class tiers.
pub open spec fn table_full(tb: OverkillLookupTable) -> bool {
    &&& table_wf(tb)
    &&& forall|t: BloonTier|
        spec_type(t) == BloonType::Bloon ==> (#[trigger] tb.rows@[spec_tier_index(t)])@.len()
            == TABLE_MAGNITUDES
    &&& forall|t: BloonTier|
        spec_type(t) != BloonType::Bloon ==> (#[trigger] tb.rows@[spec_tier_index(t)])@.len() == 0
}

/// Build the overkill lookup table: for every ordinary bloon tier,
/// precompute the resolution of each magnitude up to `TABLE_MAGNITUDES`.
/// Blimp-class tiers are exempt and keep empty entries.
pub fn generate_lookup_overkill_bloon() -> (r: OverkillLookupTable)
    ensures
        table_full(r),
{
    let mut rows: Vec<Vec<Vec<BloonTier>>> = Vec::new();
    let mut ti: usize = 0;
    while ti < 17
        invariant
            ti <= 17,
            rows@.len() == ti,
            forall|j: int, m: int|
                0 <= j < ti && 0 <= m < rows@[j]@.len() ==> (#[trigger] rows@[j]@[m])@
                    == spec_resolve(spec_tier_of_index(j), m),
            forall|j: int|
                0 <= j < ti ==> (#[trigger] rows@[j])@.len() == (if spec_type(
                    spec_tier_of_index(j),
                ) == BloonType::Bloon {
                    TABLE_MAGNITUDES as int
                } else {
                    0
                }),
        decreases 17 - ti,
    {
        let t = tier_of_index(ti);
        let mut trow: Vec<Vec<BloonTier>> = Vec::new();
        if t.get_type() == BloonType::Bloon {
            let mut m: usize = 0;
            while m < TABLE_MAGNITUDES
                invariant
                    m <= TABLE_MAGNITUDES,
                    trow@.len() == m,
                    forall|q: int|
                        0 <= q < m ==> (#[trigger] trow@[q])@ == spec_resolve(
                            spec_tier_of_index(ti as int),
                            q,
                        ),
                    t == spec_tier_of_index(ti as int),
                decreases TABLE_MAGNITUDES - m,
            {
                trow.push(resolve_overkill_tiers(t, m as i64));
                m = m + 1;
            }
        }
        rows.push(trow);
        ti = ti + 1;
    }
    let r = OverkillLookupTable { rows };
    proof {
        lemma_tier_index_roundtrip();
        assert forall|t: BloonTier, m: int|
            0 <= m < r.rows@[spec_tier_index(t)]@.len() implies (#[trigger] r.rows@[spec_tier_index(
            t,
        )]@[m])@ == spec_resolve(t, m) by {
            assert(spec_tier_of_index(spec_tier_index(t)) == t);
        }
    }
    r
}

/// Build the descendant instances of `parent` for the resolved tier list
/// `tiers`, deriving each child's lineage identity from the parent's with
/// its index in the list. If the list would consume more identity bits than
/// the 32-bit path still has — kept unreachable by the catalog bound — no
/// instances are produced.
pub fn spawn_children_from(parent: &Bloon, tiers: &Vec<BloonTier>) -> (r: Vec<Bloon>)
    ensures
        parent.bid.layer as nat + spec_bits_for(tiers@.len()) <= 32 ==> {
            &&& r@.len() == tiers@.len()
            &&& forall|k: int|
                0 <= k < r@.len() ==> spec_split_instance_matches(
                    *parent,
                    #[trigger] r@[k],
                    tiers@,
                    k as nat,
                )
        },
        parent.bid.layer as nat + spec_bits_for(tiers@.len()) > 32 ==> r@.len() == 0,
{
    let n = tiers.len();
    let mut out: Vec<Bloon> = Vec::new();
    if n == 0 {
        return out;
    }
    let bits = crate::lineage::bits_for(n);
    if (parent.bid.layer as u32) + (bits as u32) > 32 {
        return out;
    }
    let mut i: usize = 0;
    while i < n
        invariant
            n == tiers@.len(),
            parent.bid.layer as nat + spec_bits_for(n as nat) <= 32,
            i <= n,
            out@.len() == i,
            forall|k: int|
                0 <= k < i ==> spec_split_instance_matches(
                    *parent,
                    #[trigger] out@[k],
                    tiers@,
                    k as nat,
                ),
        decreases n - i,
    {
        let child = Bloon::with(tiers[i], parent.modifiers).child_of(parent, i, n);
        out.push(child);
        i = i + 1;
    }
    out
}

/// Table lookup for an ordinary bloon tier: the stored row for this
/// attacker's tier and overkill magnitude, turned into descendant
/// instances; no instances if the magnitude is past the precomputed rows.
pub fn lookup_overkill_bloon(bloon: &Bloon, table: &OverkillLookupTable) -> (r: Vec<Bloon>)
    requires
        table_wf(*table),
        bloon.hp <= 0,
    ensures
        -bloon.hp < table.rows@[spec_tier_index(bloon.tier)]@.len() && bloon.bid.layer as nat
            + spec_bits_for(spec_resolve(bloon.tier, -bloon.hp as int).len()) <= 32 ==> {
            &&& r@.len() == spec_resolve(bloon.tier, -bloon.hp as int).len()
            &&& forall|k: int|
                0 <= k < r@.len() ==> spec_split_instance_matches(
                    *bloon,
                    #[trigger] r@[k],
                    spec_resolve(bloon.tier, -bloon.hp as int),
                    k as nat,
                )
        },
        -bloon.hp < table.rows@[spec_tier_index(bloon.tier)]@.len() && bloon.bid.layer as nat
            + spec_bits_for(spec_resolve(bloon.tier, -bloon.hp as int).len()) > 32 ==> r@.len()
            == 0,
        -bloon.hp >= table.rows@[spec_tier_index(bloon.tier)]@.len() ==> r@.len() == 0,
{
    let magnitude: usize = (-(bloon.hp as i64)) as usize;
    let ti = tier_index(bloon.tier);
    let row = &table.rows[ti];
    if magnitude < row.len() {
        let tiers = &row[magnitude];
        spawn_children_from(bloon, tiers)
    } else {
        Vec::new()
    }
}

/// Descendant instances of a destroyed attacker, overkill included: an
/// ordinary bloon tier reads the precomputed table (falling back to the
/// live recursion past the table's rows), a blimp-class tier always runs
/// the live recursion. Either way the descendant tiers equal the reference
/// resolution of (tier, magnitude).
pub fn calculate_overkill(bloon: &Bloon, table: &OverkillLookupTable) -> (r: Vec<Bloon>)
    requires
        table_wf(*table),
        bloon.hp <= 0,
    ensures
        bloon.bid.layer as nat + spec_bits_for(spec_resolve(bloon.tier, -bloon.hp as int).len())
            <= 32 ==> {
            &&& r@.len() == spec_resolve(bloon.tier, -bloon.hp as int).len()
            &&& forall|k: int|
                0 <= k < r@.len() ==> spec_split_instance_matches(
                    *bloon,
                    #[trigger] r@[k],
                    spec_resolve(bloon.tier, -bloon.hp as int),
                    k as nat,
                )
        },
        bloon.bid.layer as nat + spec_bits_for(spec_resolve(bloon.tier, -bloon.hp as int).len())
            > 32 ==> r@.len() == 0,
{
    let magnitude: i64 = -(bloon.hp as i64);
    let is_bloon = bloon.tier.get_type() == BloonType::Bloon;
    let ti = tier_index(bloon.tier);
    if is_bloon && (magnitude as usize) < table.rows[ti].len() {
        let tiers = &table.rows[ti][magnitude as usize];
        spawn_children_from(bloon, tiers)
    } else {
        let tiers = resolve_overkill_tiers(bloon.tier, magnitude);
        spawn_children_from(bloon, &tiers)
    }
}

/// The table-driven result agrees with the live recursive computation: for
/// every tier and every magnitude the table precomputes, the stored row is
/// exactly the reference resolution the live recursion returns.
pub proof fn lemma_table_matches_live(tb: OverkillLookupTable, t: BloonTier, m: int)
    requires
        table_wf(tb),
        0 <= m < tb.rows@[spec_tier_index(t)]@.len(),
    ensures
        tb.rows@[spec_tier_index(t)]@[m]@ == spec_resolve(t, m),
{
}

} // verus!
