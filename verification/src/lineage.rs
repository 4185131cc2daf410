//! Lineage identity: a compact, collision-free encoding of split ancestry.
//!
//! Every root attacker draws a random 32-bit family value; each split appends
//! `ceil(log2(sibling_count))` child-selection bits to a bit-packed path
//! (`tree`), with `layer` counting how many low bits of the path are
//! meaningful. Two identities of the same family are in the same lineage
//! exactly when their paths agree on the low `min(layer_a, layer_b)` bits,
//! which gives an O(1) "same subtree" test without any parent/child graph.
//!
//! The path is 32 bits wide, so `layer` may never exceed 32; every operation
//! that appends bits states this bound as a precondition, and the split
//! policy checks it before deriving.

use vstd::arithmetic::power2::{
    lemma2_to64, lemma_pow2_pos, lemma_pow2_strictly_increases, lemma_pow2_unfold, pow2,
};
use vstd::bits::{lemma_u32_pow2_no_overflow, lemma_u32_shl_is_mul};
use vstd::math::min;
use vstd::prelude::*;
use rand::Rng;

verus! {

/// Number of path bits a split into `n` siblings consumes:
/// `ceil(log2(n))`, and 0 for a sole child.
pub open spec fn spec_bits_for(n: nat) -> nat
    decreases n,
{
    if n <= 1 {
        0
    } else {
        1 + spec_bits_for((n + 1) / 2)
    }
}

/// `spec_bits_for(n)` bits are enough to tell `n` siblings apart.
pub proof fn lemma_bits_for_enough(n: nat)
    ensures
        n <= pow2(spec_bits_for(n)),
    decreases n,
{
    if n <= 1 {
        lemma_pow2_pos(0);
    } else {
        let h = (n + 1) / 2;
        lemma_bits_for_enough(h);
        lemma_pow2_unfold(spec_bits_for(n));
        assert(n <= 2 * h);
    }
}

/// `spec_bits_for` never asks for more bits than are needed to cover `n`.
pub proof fn lemma_bits_for_le(n: nat, k: nat)
    requires
        n <= pow2(k),
    ensures
        spec_bits_for(n) <= k,
    decreases n,
{
    if n <= 1 {
    } else {
        if k == 0 {
            lemma2_to64();
            assert(false);
        }
        let h = (n + 1) / 2;
        lemma_pow2_unfold(k);
        assert(n + 1 <= 2 * pow2((k - 1) as nat) + 1);
        assert(h <= pow2((k - 1) as nat));
        lemma_bits_for_le(h, (k - 1) as nat);
    }
}

/// Executable `ceil(log2(n))`, by repeated halving.
pub fn bits_for(n: usize) -> (r: u8)
    requires
        n >= 1,
    ensures
        r as nat == spec_bits_for(n as nat),
        n <= pow2(r as nat),
{
    proof {
        lemma2_to64();
        lemma_bits_for_le(n as nat, 64);
        lemma_bits_for_enough(n as nat);
    }
    let mut m: usize = n;
    let mut k: u8 = 0;
    while m > 1
        invariant
            m >= 1,
            spec_bits_for(n as nat) == k as nat + spec_bits_for(m as nat),
            spec_bits_for(n as nat) <= 64,
        decreases m,
    {
        assert(m / 2 + m % 2 == (m + 1) / 2);
        m = m / 2 + m % 2;
        k = k + 1;
    }
    k
}

/// Mask keeping the low `n` bits of a 32-bit path (everything, past 32).
pub open spec fn spec_mask(n: u8) -> u32 {
    if n >= 32 {
        0xffff_ffffu32
    } else {
        !(0xffff_ffffu32 << (n as u32))
    }
}

/// Executable mask for the low `n` bits of the path.
fn first_n_bits_mask(n: u8) -> (r: u32)
    ensures
        r == spec_mask(n),
{
    if n >= 32 {
        u32::MAX
    } else {
        !(u32::MAX << (n as u32))
    }
}

/// Uniquely identifies an attacker's split ancestry.
#[derive(PartialEq, Eq, Structural, Clone, Copy, Debug)]
pub struct BloonID {
    /// Random value shared by everything descending from one root spawn.
    pub family: u32,
    /// How many low bits of `tree` are meaningful.
    pub layer: u8,
    /// Bit-packed path of child-selection indices, low bits first.
    pub tree: u32,
}

/// A well-formed identity: the layer fits the path width and no bits are set
/// above the layer.
pub open spec fn id_wf(id: BloonID) -> bool {
    &&& id.layer <= 32
    &&& (id.layer < 32 ==> id.tree >> (id.layer as u32) == 0)
}

/// The same-lineage relation: same family, and the paths agree on the low
/// `min(layer_a, layer_b)` bits.
pub open spec fn spec_same_lineage(a: BloonID, b: BloonID) -> bool {
    &&& a.family == b.family
    &&& a.tree & spec_mask(min(a.layer as int, b.layer as int) as u8) == b.tree & spec_mask(
        min(a.layer as int, b.layer as int) as u8,
    )
}

/// The identity a child receives when its parent splits into `n` siblings
/// and the child takes index `i`: the parent's path with `i` written at bit
/// offset `layer`, and the layer advanced by `spec_bits_for(n)`. A sole child
/// (`n <= 1`) keeps the parent's exact path and layer.
pub open spec fn spec_derive_child(p: BloonID, i: nat, n: nat) -> BloonID {
    BloonID {
        family: p.family,
        layer: (p.layer + spec_bits_for(n)) as u8,
        tree: if n <= 1 {
            p.tree
        } else {
            p.tree | ((i as u32) << (p.layer as u32))
        },
    }
}

/// Relies on `rand::rng` and `rand_core::Rng::next_u32` for a fresh value
/// from the thread-local generator; nothing is assumed about which value
/// comes back.
#[verifier::external_body]
fn random_u32() -> u32 {
    rand::rng().next_u32()
}

impl BloonID {
    /// True iff `self` and `other` are in the same lineage: ancestor and
    /// descendant, or relatives agreeing on every branch up to the shallower
    /// of the two depths.
    pub fn same_subtree_as(&self, other: &Self) -> (r: bool)
        ensures
            r == spec_same_lineage(*self, *other),
    {
        if self.family != other.family {
            return false;
        }
        let min_layer: u8 = if self.layer <= other.layer {
            self.layer
        } else {
            other.layer
        };
        let mask = first_n_bits_mask(min_layer);
        (self.tree & mask) == (other.tree & mask)
    }

    /// A fresh root identity: a random family, an empty path.
    pub fn new() -> (r: Self)
        ensures
            r.layer == 0,
            r.tree == 0,
            id_wf(r),
    {
        let r = Self { family: random_u32(), layer: 0, tree: 0 };
        proof {
            assert(0u32 >> 0u32 == 0u32) by (bit_vector);
        }
        r
    }

    /// Identity for the child at `sibling_index` of a split into
    /// `sibling_count` siblings. The only operation that advances `layer`.
    pub fn derive_child(&self, sibling_index: usize, sibling_count: usize) -> (r: Self)
        requires
            1 <= sibling_count,
            sibling_index < sibling_count,
            self.layer as nat + spec_bits_for(sibling_count as nat) <= 32,
        ensures
            r == spec_derive_child(*self, sibling_index as nat, sibling_count as nat),
    {
        let bits = bits_for(sibling_count);
        let mut tree = self.tree;
        if sibling_count > 1 {
            proof {
                lemma_index_fits_u32(*self, sibling_index as nat, sibling_count as nat);
            }
            tree = tree | ((sibling_index as u32) << (self.layer as u32));
        }
        Self { family: self.family, layer: self.layer + bits, tree }
    }
}

/// When more than one sibling exists, the index fits in 32 bits and the shift
/// offset is below 32, so writing the index into the path is meaningful.
proof fn lemma_index_fits_u32(p: BloonID, i: nat, n: nat)
    requires
        2 <= n,
        i < n,
        p.layer as nat + spec_bits_for(n) <= 32,
    ensures
        p.layer < 32,
        i < 0x1_0000_0000,
{
    lemma_bits_for_enough(n);
    let b = spec_bits_for(n);
    assert(b >= 1);
    if b < 32 {
        lemma_pow2_strictly_increases(b, 32);
    }
    lemma2_to64();
    assert(pow2(32) == 0x1_0000_0000);
}

proof fn bv_or_preserves_low(t: u32, iu: u32, lu: u32, mu: u32)
    by (bit_vector)
    requires
        mu <= lu < 32,
    ensures
        (t | (iu << lu)) & !(0xffff_ffffu32 << mu) == t & !(0xffff_ffffu32 << mu),
{
}

proof fn bv_low_eq_shrink(x: u32, y: u32, lu: u32, mu: u32)
    by (bit_vector)
    requires
        mu <= lu < 32,
        x & !(0xffff_ffffu32 << lu) == y & !(0xffff_ffffu32 << lu),
    ensures
        x & !(0xffff_ffffu32 << mu) == y & !(0xffff_ffffu32 << mu),
{
}

proof fn bv_siblings_differ(t: u32, iu: u32, ju: u32, lu: u32, bu: u32)
    by (bit_vector)
    requires
        t >> lu == 0,
        iu != ju,
        iu < (1u32 << bu),
        ju < (1u32 << bu),
        lu + bu <= 32,
        1 <= bu < 32,
        lu < 32,
    ensures
        (t | (iu << lu)) != (t | (ju << lu)),
{
}

/// The same-lineage test is reflexive.
pub proof fn lemma_same_lineage_reflexive(a: BloonID)
    ensures
        spec_same_lineage(a, a),
{
}

/// The same-lineage test is symmetric.
pub proof fn lemma_same_lineage_symmetric(a: BloonID, b: BloonID)
    ensures
        spec_same_lineage(a, b) == spec_same_lineage(b, a),
{
}

/// A freshly derived child is in the same lineage as its parent, whatever
/// valid sibling index and sibling count the split used: the child's path
/// extends the parent's, so they agree on the parent's `layer` low bits.
pub proof fn lemma_derive_child_same_lineage(p: BloonID, i: nat, n: nat)
    requires
        1 <= n,
        i < n,
        p.layer as nat + spec_bits_for(n) <= 32,
    ensures
        spec_same_lineage(spec_derive_child(p, i, n), p),
{
    let c = spec_derive_child(p, i, n);
    if n <= 1 {
    } else {
        lemma_index_fits_u32(p, i, n);
        bv_or_preserves_low(p.tree, i as u32, p.layer as u32, p.layer as u32);
    }
}

/// Two children of one split share their parent's path prefix — each is in
/// the parent's lineage and they agree on the parent's `layer` low bits —
/// yet a depth-exact comparison of the full paths tells them apart: their
/// layers are equal and their path values differ.
pub proof fn lemma_siblings_share_prefix(p: BloonID, i: nat, j: nat, n: nat)
    requires
        id_wf(p),
        2 <= n,
        i < n,
        j < n,
        i != j,
        p.layer as nat + spec_bits_for(n) <= 32,
    ensures
        spec_same_lineage(spec_derive_child(p, i, n), p),
        spec_same_lineage(spec_derive_child(p, j, n), p),
        spec_derive_child(p, i, n).tree & spec_mask(p.layer) == spec_derive_child(p, j, n).tree
            & spec_mask(p.layer),
        spec_derive_child(p, i, n).layer == spec_derive_child(p, j, n).layer,
        spec_derive_child(p, i, n).tree != spec_derive_child(p, j, n).tree,
{
    let ci = spec_derive_child(p, i, n);
    let cj = spec_derive_child(p, j, n);
    lemma_derive_child_same_lineage(p, i, n);
    lemma_derive_child_same_lineage(p, j, n);
    lemma_index_fits_u32(p, i, n);
    lemma_index_fits_u32(p, j, n);
    let b = spec_bits_for(n);
    let t = p.tree;
    let lu = p.layer as u32;
    let iu = i as u32;
    let ju = j as u32;
    assert(iu != ju);
    if b >= 32 {
        assert(lu == 0);
        assert(t >> 0u32 == t) by (bit_vector);
        assert(t == 0);
        assert(t | (iu << 0u32) == iu) by (bit_vector)
            requires
                t == 0,
        ;
        assert(t | (ju << 0u32) == ju) by (bit_vector)
            requires
                t == 0,
        ;
        assert(ci.tree != cj.tree);
    } else {
        let bu = b as u32;
        lemma_u32_pow2_no_overflow(b);
        lemma_u32_shl_is_mul(1u32, bu);
        lemma_bits_for_enough(n);
        assert(iu < (1u32 << bu) && ju < (1u32 << bu));
        bv_siblings_differ(t, iu, ju, lu, bu);
    }
}

/// An identity `h` already credited as hit blocks every later descendant: if
/// `h` is in the parent's lineage and no deeper than the parent, it is also
/// in the lineage of any child the parent derives, whatever the sibling
/// index and count. A damage source whose hit list holds an ancestor
/// therefore keeps matching the whole subtree that splits produce.
pub proof fn lemma_hit_prefix_blocks_descendants(h: BloonID, p: BloonID, i: nat, n: nat)
    requires
        spec_same_lineage(h, p),
        h.layer <= p.layer,
        1 <= n,
        i < n,
        p.layer as nat + spec_bits_for(n) <= 32,
    ensures
        spec_same_lineage(h, spec_derive_child(p, i, n)),
{
    let c = spec_derive_child(p, i, n);
    if n <= 1 {
    } else {
        lemma_index_fits_u32(p, i, n);
        let hu = h.layer as u32;
        let lu = p.layer as u32;
        bv_or_preserves_low(p.tree, i as u32, lu, hu);
    }
}

/// Deriving a child from a well-formed identity leaves a well-formed
/// identity: the child's path has no bits set above the child's layer.
pub proof fn lemma_derive_child_wf(p: BloonID, i: nat, n: nat)
    requires
        id_wf(p),
        1 <= n,
        i < n,
        p.layer as nat + spec_bits_for(n) <= 32,
    ensures
        id_wf(spec_derive_child(p, i, n)),
{
    let b = spec_bits_for(n);
    let c = spec_derive_child(p, i, n);
    if n <= 1 {
    } else {
        lemma_index_fits_u32(p, i, n);
        let iu = i as u32;
        let lu = p.layer as u32;
        let bu = b as u32;
        lemma_bits_for_enough(n);
        if c.layer < 32 {
            assert(bu < 32);
            lemma_u32_pow2_no_overflow(b);
            lemma_u32_shl_is_mul(1u32, bu);
            assert(pow2(b) == (1u32 << bu));
            assert(iu < (1u32 << bu));
            let cl = c.layer as u32;
            let t = p.tree;
            assert((t | (iu << lu)) >> cl == 0) by (bit_vector)
                requires
                    t >> lu == 0,
                    iu < (1u32 << bu),
                    cl == lu + bu,
                    cl < 32,
                    bu < 32,
            ;
        }
    }
}

} // verus!
