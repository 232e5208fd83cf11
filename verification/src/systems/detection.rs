//! Whether an enemy sees the player.

use vstd::prelude::*;

verus! {

/// How alert an enemy is.
#[derive(Debug, Clone, Copy, PartialEq, Eq, Structural)]
pub enum AlertStatus {
    Normal,
    Curious,
    Alert,
}

/// What an enemy knows of the player. Angles are in thousandths of a degree,
/// distances in thousandths of a world unit.
#[derive(Debug, Clone, Copy, PartialEq, Eq, Structural)]
pub struct Sight {
    /// The angle between the direction in which the enemy looks and the
    /// direction to the player.
    pub angle: i64,
    /// How far the player is, along the line from the enemy to the player.
    /// Nothing where the line misses the player.
    pub player: Option<u64>,
    /// How far the nearest wall is along that line, if there is a wall.
    pub wall: Option<u64>,
}

/// The enemy has the player in its field of vision, which reaches
/// `detection_angle` to either side.
pub open spec fn in_view(sight: Sight, detection_angle: i32) -> bool {
    -detection_angle < sight.angle < detection_angle
}

/// No wall stands between the enemy and the player at the distance `player`.
pub open spec fn line_of_sight(sight: Sight, player: u64) -> bool {
    match sight.wall {
        Some(wall) => wall > player,
        None => true,
    }
}

/// How alert the enemy is: it is alert where it sees the player within
/// `detection_distance`, curious where it sees the player within twice that
/// distance, and normal where it does not see the player or the player is
/// farther.
pub open spec fn alert_of(sight: Sight, detection_angle: i32, detection_distance: u64) -> AlertStatus {
    match sight.player {
        Some(player) if in_view(sight, detection_angle) && line_of_sight(sight, player) => {
            if player < detection_distance {
                AlertStatus::Alert
            } else if player < 2 * detection_distance {
                AlertStatus::Curious
            } else {
                AlertStatus::Normal
            }
        },
        _ => AlertStatus::Normal,
    }
}

/// Detects whether an enemy can see the player.
#[derive(Debug, Clone, Copy, Default)]
pub struct DetectionSystem;

impl DetectionSystem {
    /// How alert an enemy with this sight of the player is.
    pub fn run(&self, sight: &Sight, detection_angle: i32, detection_distance: u64) -> (r:
        AlertStatus)
        ensures
            r == alert_of(*sight, detection_angle, detection_distance),
    {
        if sight.angle < detection_angle as i64 && sight.angle > -(detection_angle as i64) {
            if let Some(toi_player) = sight.player {
                let line_of_sight = match sight.wall {
                    Some(toi_region) => toi_region > toi_player,
                    None => true,
                };
                if line_of_sight {
                    if toi_player < detection_distance {
                        AlertStatus::Alert
                    } else if (toi_player as u128) < 2 * (detection_distance as u128) {
                        AlertStatus::Curious
                    } else {
                        AlertStatus::Normal
                    }
                } else {
                    AlertStatus::Normal
                }
            } else {
                AlertStatus::Normal
            }
        } else {
            AlertStatus::Normal
        }
    }
}

} // verus!
