//! Core simulation of a wave of subdividing "bloon" attackers moving along a
//! fixed waypoint path while piercing damage sources whittle them down.
//!
//! The crate covers the deterministic simulation mechanics only: the tier
//! catalog, the compact lineage identity used to avoid double-hits across
//! splits, overkill resolution, the split/replace policy on death, path
//! movement, and the piercing collision protocol. Rendering, input and
//! scheduling are left to callers.
//!
//! All coordinates, distances and speeds are integers; one world pixel is 540
//! distance units, so every catalog speed (given per simulation tick) is an
//! exact integer.

pub mod bloon;
pub mod damage;
pub mod lineage;
pub mod map;
pub mod movement;
pub mod overkill;
pub mod sim;
pub mod tier;
pub mod upgradable;

pub use bloon::Bloon;
pub use lineage::BloonID;
pub use map::RoadMap;
pub use overkill::OverkillLookupTable;
pub use sim::Simulation;
pub use tier::BloonTier;
pub use tier::BloonType;
