//! Upgrade-path state: which of a tower's three upgrade paths may still be
//! advanced under the two-path crosspath rule (one path may reach tier 5,
//! one other may reach tier 2, the third must stay untouched).

use vstd::prelude::*;

verus! {

/// Upgrade state of a tower: either three crosspath counters, no upgrades
/// at all, or a hero level.
#[derive(PartialEq, Eq, Structural, Clone, Copy, Debug)]
pub enum Upgradable {
    Crosspath520(u8, u8, u8),
    NoUpgrades,
    Hero20(u8),
}

/// Whether the first crosspath counter may be advanced.
pub open spec fn spec_can_upgrade_1(u: Upgradable) -> bool {
    match u {
        Upgradable::Crosspath520(p1, p2, p3) => !(p2 > 0 && p3 > 0) && !(p1 == 2 && (p2 > 2 || p3
            > 2)) && p1 != 5,
        _ => false,
    }
}

/// Whether the second crosspath counter may be advanced.
pub open spec fn spec_can_upgrade_2(u: Upgradable) -> bool {
    match u {
        Upgradable::Crosspath520(p1, p2, p3) => !(p1 > 0 && p3 > 0) && !(p2 == 2 && (p1 > 2 || p3
            > 2)) && p2 != 5,
        _ => false,
    }
}

/// Whether the third crosspath counter may be advanced.
pub open spec fn spec_can_upgrade_3(u: Upgradable) -> bool {
    match u {
        Upgradable::Crosspath520(p1, p2, p3) => !(p2 > 0 && p1 > 0) && !(p3 == 2 && (p2 > 2 || p1
            > 2)) && p3 != 5,
        _ => false,
    }
}

impl Upgradable {
    /// True if path 1 is upgradable: paths 2 and 3 are not both taken, a
    /// maxed-out crosspath does not block it, and it is not at its cap.
    pub fn can_upgrade_1(&self) -> (r: bool)
        ensures
            r == spec_can_upgrade_1(*self),
    {
        if let Upgradable::Crosspath520(p1, p2, p3) = *self {
            if p2 > 0 && p3 > 0 {
                return false;
            }
            if p1 == 2 && (p2 > 2 || p3 > 2) {
                return false;
            }
            if p1 == 5 {
                return false;
            }
            return true;
        }
        false
    }

    /// True if path 2 is upgradable.
    pub fn can_upgrade_2(&self) -> (r: bool)
        ensures
            r == spec_can_upgrade_2(*self),
    {
        if let Upgradable::Crosspath520(p1, p2, p3) = *self {
            if p1 > 0 && p3 > 0 {
                return false;
            }
            if p2 == 2 && (p1 > 2 || p3 > 2) {
                return false;
            }
            if p2 == 5 {
                return false;
            }
            return true;
        }
        false
    }

    /// True if path 3 is upgradable.
    pub fn can_upgrade_3(&self) -> (r: bool)
        ensures
            r == spec_can_upgrade_3(*self),
    {
        if let Upgradable::Crosspath520(p1, p2, p3) = *self {
            if p2 > 0 && p1 > 0 {
                return false;
            }
            if p3 == 2 && (p2 > 2 || p1 > 2) {
                return false;
            }
            if p3 == 5 {
                return false;
            }
            return true;
        }
        false
    }
}

} // verus!
