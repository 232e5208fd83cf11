use vstd::prelude::*;

use crate::systems::schedule::ScheduledEvent;

verus! {

/// Identity of a game object. Two entities are the same object exactly when
/// their ids are equal.
#[derive(Clone, Copy, Debug, PartialEq, Eq, Hash, Structural)]
pub struct Entity {
    pub id: usize,
}

/// Messages that the systems exchange.
#[derive(Debug, PartialEq, Eq)]
pub enum AppEvent {
    /// Start a new dialog. `and_then` is sent once the dialog is over.
    NewDialog { dialog: Vec<String>, and_then: Option<Box<ScheduledEvent>> },
    /// The current dialog is finished.
    DialogOver,
    /// The player has lost.
    GameOver,
    /// An entity has been hit by a bullet.
    EntityHit(Entity),
    /// An enemy has died.
    EnemyDied(Entity),
    /// Spawn this many enemies.
    SpawnEnemy(i32),
    /// Spawn the boss.
    SpawnBoss,
    /// Start the next wave.
    NextWave,
    /// All the waves are finished.
    NextArena,
}

} // verus!
