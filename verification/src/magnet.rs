//! The magnet pickup.

use crate::units::Position;
use vstd::prelude::*;

verus! {

/// A magnet, which draws orbs to the player while it is active.
#[derive(Clone, Copy, Debug, PartialEq, Eq, Structural)]
pub struct Magnet {
    pub active: bool,
}

/// A magnet with everything that places it in a match.
#[derive(Clone, Copy, Debug, PartialEq, Eq, Structural)]
pub struct MagnetBundle {
    pub position: Position,
    /// Drawing depth, in millionths of a world unit.
    pub depth: i64,
    /// Width and height of the picture, in millionths of a world unit.
    pub width: u32,
    pub height: u32,
    pub magnet: Magnet,
    /// The magnet is removed when the match is over.
    pub match_scoped: bool,
    /// Radius of the round shape that senses the player.
    pub collider_radius: u32,
    /// The shape reports contacts and blocks nothing.
    pub sensor: bool,
}

impl MagnetBundle {
    /// An idle magnet at the origin, drawn above the ground at depth 100 with
    /// a picture of 0.4 by 0.4 world units and a sensing radius of one unit.
    pub open spec fn standard() -> MagnetBundle {
        MagnetBundle {
            position: Position { x: 0, y: 0 },
            depth: 100_000_000,
            width: 400_000,
            height: 400_000,
            magnet: Magnet { active: false },
            match_scoped: true,
            collider_radius: 1_000_000,
            sensor: true,
        }
    }
}

impl Default for MagnetBundle {
    fn default() -> (bundle: MagnetBundle)
        ensures
            bundle == MagnetBundle::standard(),
    {
        MagnetBundle {
            position: Position { x: 0, y: 0 },
            depth: 100_000_000,
            width: 400_000,
            height: 400_000,
            magnet: Magnet { active: false },
            match_scoped: true,
            collider_radius: 1_000_000,
            sensor: true,
        }
    }
}

} // verus!
