use vstd::prelude::*;

verus! {

/// The waves of one arena, in the order in which they are played.
#[derive(Debug, Clone)]
pub struct ArenaConfig {
    pub waves: Vec<WaveConfig>,
}

impl Default for ArenaConfig {
    fn default() -> (r: Self)
        ensures
            r.waves@.len() == 0,
    {
        Self { waves: Vec::new() }
    }
}

#[derive(Debug, Clone, Copy)]
pub struct WaveConfig {
    /// How many enemies may be alive at the same time.
    pub enemies_in_fly: i32,
    /// How many enemies the wave holds in all.
    pub total_enemies: i32,
}

#[derive(Debug, Clone, Copy, Default)]
pub struct SimpleBulletConfig;

/// Tuning of the player. Speeds are in thousandths of a unit per second: of
/// a world unit for `player_speed`, of a radian for `fall_rot_speed`.
#[derive(Debug, Clone, Copy)]
pub struct PlayerConfig {
    pub fall_rot_speed: u32,
    pub player_speed: u32,
    pub health: i32,
}

impl Default for PlayerConfig {
    fn default() -> (r: Self)
        ensures
            r.player_speed == 50_000,
            r.health == 5,
            r.fall_rot_speed == 25_000,
    {
        Self { player_speed: 50_000, health: 5, fall_rot_speed: 25_000 }
    }
}

#[derive(Debug, Clone, Copy)]
pub struct EnemyConfig {
    pub simple_enemy: SimpleEnemyConfig,
    pub creepy_boss: CreepyFirstBossConfig,
}

impl Default for EnemyConfig {
    fn default() -> (r: Self)
        ensures
            r.simple_enemy == SimpleEnemyConfig::spec_default(),
            r.creepy_boss == CreepyFirstBossConfig::spec_default(),
    {
        Self {
            simple_enemy: SimpleEnemyConfig::default(),
            creepy_boss: CreepyFirstBossConfig::default(),
        }
    }
}

/// Tuning of the simple enemy. Durations are in milliseconds, speeds in
/// thousandths of a world unit: per second for the bullet, per tick for the
/// walk.
#[derive(Debug, Clone, Copy, PartialEq, Eq, Structural)]
pub struct SimpleEnemyConfig {
    pub bullet_speed: u32,
    /// How long the enemy walks.
    pub walk_duration: u32,
    /// How long the enemy shoots. This is the length of the shooting
    /// animation.
    pub shoot_duration: u32,
    /// How fast the enemy walks.
    pub walk_speed: u32,
    pub health: i32,
}

impl SimpleEnemyConfig {
    pub open spec fn spec_default() -> SimpleEnemyConfig {
        SimpleEnemyConfig {
            bullet_speed: 100_000,
            walk_duration: 2000,
            shoot_duration: 1000,
            walk_speed: 200,
            health: 2,
        }
    }
}

impl Default for SimpleEnemyConfig {
    fn default() -> (r: Self)
        ensures
            r == SimpleEnemyConfig::spec_default(),
    {
        Self {
            bullet_speed: 100_000,
            walk_duration: 2000,
            shoot_duration: 1000,
            walk_speed: 200,
            health: 2,
        }
    }
}

#[derive(Debug, Clone, Copy, PartialEq, Eq, Structural)]
pub struct CreepyFirstBossConfig {
    pub health: i32,
    /// Width and height of the collider, in world units.
    pub collider_size: u32,
    /// Number of places around the boss from which it shoots.
    pub bullet_spawn: usize,
}

impl CreepyFirstBossConfig {
    pub open spec fn spec_default() -> CreepyFirstBossConfig {
        CreepyFirstBossConfig { health: 10, collider_size: 48, bullet_spawn: 4 }
    }
}

impl Default for CreepyFirstBossConfig {
    fn default() -> (r: Self)
        ensures
            r == CreepyFirstBossConfig::spec_default(),
    {
        Self { health: 10, collider_size: 48, bullet_spawn: 4 }
    }
}

#[derive(Debug, Clone, Copy, Default)]
pub struct BulletConfig {
    pub simple_enemy: SimpleBulletConfig,
    pub rotating_bullet: RotatingBulletConfig,
}

/// Tuning of the bullet that turns. The turn is in millionths of a radian
/// per second.
#[derive(Debug, Clone, Copy)]
pub struct RotatingBulletConfig {
    rot_per_sec: u32,
}

impl RotatingBulletConfig {
    pub closed spec fn spec_rot_per_sec(&self) -> u32 {
        self.rot_per_sec
    }

    pub fn new(rot_per_sec: u32) -> (r: Self)
        ensures
            r.spec_rot_per_sec() == rot_per_sec,
    {
        Self { rot_per_sec }
    }

    pub fn rot_per_sec(&self) -> (r: u32)
        ensures
            r == self.spec_rot_per_sec(),
    {
        self.rot_per_sec
    }
}

impl Default for RotatingBulletConfig {
    fn default() -> (r: Self)
        ensures
            r.spec_rot_per_sec() == 1_000_000,
    {
        Self { rot_per_sec: 1_000_000 }
    }
}

} // verus!
