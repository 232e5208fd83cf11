//! The animations that the player and the enemies come with.

use vstd::prelude::*;

use crate::systems::animation::{table_view, Animation, AnimationKey, AnimationState};
use crate::systems::enemy::EnemyType;

verus! {

/// How long a sprite of the walk is shown, in milliseconds.
pub const WALK_STEP: u32 = 300;

/// The walk in four directions: four sprites each, in the order down, left,
/// right, up.
pub open spec fn walking_animations() -> Seq<(AnimationKey, AnimationState)> {
    seq![
        (AnimationKey::WalkDown, AnimationState::new(seq![0, 1, 2, 3], WALK_STEP)),
        (AnimationKey::WalkLeft, AnimationState::new(seq![4, 5, 6, 7], WALK_STEP)),
        (AnimationKey::WalkRight, AnimationState::new(seq![8, 9, 10, 11], WALK_STEP)),
        (AnimationKey::WalkUp, AnimationState::new(seq![12, 13, 14, 15], WALK_STEP)),
    ]
}

/// The animations of the simple enemy: one sprite for each direction, and one
/// for the shot.
pub open spec fn enemy_simplest_animation() -> Seq<(AnimationKey, AnimationState)> {
    seq![
        (AnimationKey::WalkDown, AnimationState::new(seq![0], 10_000)),
        (AnimationKey::WalkLeft, AnimationState::new(seq![0], 10_000)),
        (AnimationKey::WalkRight, AnimationState::new(seq![0], 10_300)),
        (AnimationKey::WalkUp, AnimationState::new(seq![2], 10_300)),
        (AnimationKey::Shoot, AnimationState::new(seq![1], 3000)),
    ]
}

/// The animations of an enemy of the kind `enemy_type`. The boss has none.
pub open spec fn enemy_anim(enemy_type: EnemyType) -> Option<Seq<(AnimationKey, AnimationState)>> {
    match enemy_type {
        EnemyType::Simple => Some(enemy_simplest_animation()),
        EnemyType::CreepyFirstBoss => None,
    }
}

/// An animation of `count` sprites in a row, from `first` on.
fn row(first: usize, count: usize, step_duration: u32) -> (r: Animation)
    requires
        first + count <= usize::MAX,
    ensures
        r@ == AnimationState::new(Seq::new(count as nat, |i: int| (first + i) as usize), step_duration),
{
    let mut sprites: Vec<usize> = Vec::new();
    let mut i: usize = 0;
    while i < count
        invariant
            i <= count,
            first + count <= usize::MAX,
            sprites@ == Seq::new(i as nat, |k: int| (first + k) as usize),
        decreases count - i,
    {
        sprites.push(first + i);
        assert(sprites@ =~= Seq::new((i + 1) as nat, |k: int| (first + k) as usize));
        i += 1;
    }
    Animation::new(sprites, step_duration)
}

/// Basic 4-direction walk animation.
pub fn get_walking_animations() -> (r: Vec<(AnimationKey, Animation)>)
    ensures
        table_view(r@) == walking_animations(),
{
    let mut animations: Vec<(AnimationKey, Animation)> = Vec::new();
    animations.push((AnimationKey::WalkDown, row(0, 4, WALK_STEP)));
    animations.push((AnimationKey::WalkLeft, row(4, 4, WALK_STEP)));
    animations.push((AnimationKey::WalkRight, row(8, 4, WALK_STEP)));
    animations.push((AnimationKey::WalkUp, row(12, 4, WALK_STEP)));
    proof {
        assert(animations@[0].1@.sprite_indexes =~= seq![0usize, 1, 2, 3]);
        assert(animations@[1].1@.sprite_indexes =~= seq![4usize, 5, 6, 7]);
        assert(animations@[2].1@.sprite_indexes =~= seq![8usize, 9, 10, 11]);
        assert(animations@[3].1@.sprite_indexes =~= seq![12usize, 13, 14, 15]);
        assert(table_view(animations@) =~= walking_animations());
    }
    animations
}

pub fn get_enemy_simplest_animation() -> (r: Vec<(AnimationKey, Animation)>)
    ensures
        table_view(r@) == enemy_simplest_animation(),
{
    let mut animations: Vec<(AnimationKey, Animation)> = Vec::new();
    animations.push((AnimationKey::WalkDown, row(0, 1, 10_000)));
    animations.push((AnimationKey::WalkLeft, row(0, 1, 10_000)));
    animations.push((AnimationKey::WalkRight, row(0, 1, 10_300)));
    animations.push((AnimationKey::WalkUp, row(2, 1, 10_300)));
    animations.push((AnimationKey::Shoot, row(1, 1, 3000)));
    proof {
        assert(animations@[0].1@.sprite_indexes =~= seq![0usize]);
        assert(animations@[1].1@.sprite_indexes =~= seq![0usize]);
        assert(animations@[2].1@.sprite_indexes =~= seq![0usize]);
        assert(animations@[3].1@.sprite_indexes =~= seq![2usize]);
        assert(animations@[4].1@.sprite_indexes =~= seq![1usize]);
        assert(table_view(animations@) =~= enemy_simplest_animation());
    }
    animations
}

/// The animations of an enemy of the kind `enemy_type`, if it has any.
pub fn get_enemy_anim(enemy_type: EnemyType) -> (r: Option<Vec<(AnimationKey, Animation)>>)
    ensures
        match r {
            Some(table) => enemy_anim(enemy_type) == Some(table_view(table@)),
            None => enemy_anim(enemy_type) is None,
        },
{
    match enemy_type {
        EnemyType::Simple => Some(get_enemy_simplest_animation()),
        EnemyType::CreepyFirstBoss => None,
    }
}

} // verus!
