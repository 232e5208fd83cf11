//! Sprite animations: which frame of which animation an entity shows.

use vstd::prelude::*;

use crate::ecs::Storage;
use crate::event::Entity;

verus! {

/// The animations that the game knows.
#[derive(Debug, Clone, Copy, PartialEq, Eq, Hash, Structural)]
pub enum AnimationKey {
    WalkDown,
    WalkLeft,
    WalkRight,
    WalkUp,
    Shoot,
    Idle,
}

impl AnimationKey {
    /// The name of the animation in the asset files.
    pub fn name(&self) -> (r: &'static str)
        ensures
            r@ == match *self {
                AnimationKey::WalkDown => "walk_down"@,
                AnimationKey::WalkLeft => "walk_left"@,
                AnimationKey::WalkRight => "walk_right"@,
                AnimationKey::WalkUp => "walk_up"@,
                AnimationKey::Shoot => "shoot"@,
                AnimationKey::Idle => "idle"@,
            },
    {
        match *self {
            AnimationKey::WalkDown => "walk_down",
            AnimationKey::WalkLeft => "walk_left",
            AnimationKey::WalkRight => "walk_right",
            AnimationKey::WalkUp => "walk_up",
            AnimationKey::Shoot => "shoot",
            AnimationKey::Idle => "idle",
        }
    }
}

/// What an animation is. Durations are in milliseconds.
pub ghost struct AnimationState {
    pub sprite_indexes: Seq<usize>,
    /// How long each sprite is shown.
    pub step_duration: u32,
    pub current_index: usize,
    /// How long the current sprite has been shown.
    pub elapsed_time: u32,
}

impl AnimationState {
    /// A new animation: it starts with its first sprite.
    pub open spec fn new(sprite_indexes: Seq<usize>, step_duration: u32) -> AnimationState {
        AnimationState { sprite_indexes, step_duration, current_index: 0, elapsed_time: 0 }
    }

    /// The animation has a current sprite.
    pub open spec fn wf(self) -> bool {
        self.current_index < self.sprite_indexes.len()
    }

    /// The sprite to show.
    pub open spec fn sprite(self) -> usize {
        self.sprite_indexes[self.current_index as int]
    }

    /// The sprite after the current one comes up in a tick of `time_delta`
    /// milliseconds: more time has passed than a sprite is shown for.
    pub open spec fn turns(self, time_delta: u32) -> bool {
        self.elapsed_time + time_delta > self.step_duration
    }

    /// The index of the sprite that follows the current one: after the last
    /// sprite comes the first.
    pub open spec fn next_index(self) -> usize {
        if self.current_index + 1 == self.sprite_indexes.len() {
            0
        } else {
            (self.current_index + 1) as usize
        }
    }

    /// The animation after a tick of `time_delta` milliseconds.
    pub open spec fn advanced(self, time_delta: u32) -> AnimationState {
        if self.turns(time_delta) {
            AnimationState { elapsed_time: 0, current_index: self.next_index(), ..self }
        } else {
            AnimationState { elapsed_time: (self.elapsed_time + time_delta) as u32, ..self }
        }
    }
}

/// A cycle of sprites. Each is shown for `step_duration` milliseconds.
#[derive(Debug)]
pub struct Animation {
    pub sprite_indexes: Vec<usize>,
    /// In milliseconds.
    pub step_duration: u32,
    pub current_index: usize,
    /// In milliseconds.
    pub elapsed_time: u32,
}

impl View for Animation {
    type V = AnimationState;

    open spec fn view(&self) -> AnimationState {
        AnimationState {
            sprite_indexes: self.sprite_indexes@,
            step_duration: self.step_duration,
            current_index: self.current_index,
            elapsed_time: self.elapsed_time,
        }
    }
}

impl Animation {
    pub fn new(sprite_indexes: Vec<usize>, step_duration: u32) -> (r: Self)
        ensures
            r@ == AnimationState::new(sprite_indexes@, step_duration),
    {
        Self { sprite_indexes, step_duration, current_index: 0, elapsed_time: 0 }
    }

    /// One tick of `time_delta` milliseconds. Returns the sprite to show,
    /// which is the current one, and then moves on in time.
    pub fn advance(&mut self, time_delta: u32) -> (sprite: usize)
        requires
            old(self)@.wf(),
        ensures
            final(self)@.wf(),
            sprite == old(self)@.sprite(),
            final(self)@ == old(self)@.advanced(time_delta),
    {
        let sprite = self.sprite_indexes[self.current_index];
        let len = self.sprite_indexes.len();
        if self.elapsed_time as u64 + time_delta as u64 > self.step_duration as u64 {
            self.elapsed_time = 0;
            self.current_index = if self.current_index + 1 == len {
                0
            } else {
                self.current_index + 1
            };
        } else {
            self.elapsed_time = self.elapsed_time + time_delta;
        }
        sprite
    }
}

/// What an animation controller holds.
pub ghost struct ControllerState {
    /// The animations by key. Where a key occurs twice, the first entry
    /// counts.
    pub animations: Seq<(AnimationKey, AnimationState)>,
    /// If set, the animation under this key plays.
    pub current_animation: Option<AnimationKey>,
}

impl ControllerState {
    /// A controller without animations.
    pub open spec fn empty() -> ControllerState {
        ControllerState { animations: seq![], current_animation: None }
    }

    /// Every animation of the controller has a current sprite.
    pub open spec fn wf(self) -> bool {
        forall|i: int| 0 <= i < self.animations.len() ==> (#[trigger] self.animations[i]).1.wf()
    }

    /// The entry at `i` is the first under `key`.
    pub open spec fn first_under(self, key: AnimationKey, i: int) -> bool {
        &&& 0 <= i < self.animations.len()
        &&& self.animations[i].0 == key
        &&& forall|j: int| 0 <= j < i ==> self.animations[j].0 != key
    }

    /// The index of the animation that plays, if one plays and the controller
    /// has it.
    pub open spec fn playing(self) -> Option<int> {
        match self.current_animation {
            Some(key) if exists|i: int| self.first_under(key, i) => Some(
                choose|i: int| self.first_under(key, i),
            ),
            _ => None,
        }
    }

    /// The sprite to show, if an animation plays.
    pub open spec fn sprite(self) -> Option<usize> {
        match self.playing() {
            Some(i) => Some(self.animations[i].1.sprite()),
            None => None,
        }
    }

    /// The controller after a tick of `time_delta` milliseconds: the
    /// animation that plays moves on in time.
    pub open spec fn stepped(self, time_delta: u32) -> ControllerState {
        match self.playing() {
            Some(i) => ControllerState {
                animations: self.animations.update(
                    i,
                    (self.animations[i].0, self.animations[i].1.advanced(time_delta)),
                ),
                ..self
            },
            None => self,
        }
    }

    /// The controller with `animation` as the animation that plays.
    pub open spec fn showing(self, animation: Option<AnimationKey>) -> ControllerState {
        ControllerState { current_animation: animation, ..self }
    }
}

/// What a table of animations holds.
pub open spec fn table_view(table: Seq<(AnimationKey, Animation)>) -> Seq<
    (AnimationKey, AnimationState),
> {
    Seq::new(table.len(), |i: int| (table[i].0, table[i].1@))
}

/// The animations of an entity, and the one that plays.
#[derive(Debug)]
pub struct AnimationController {
    pub animations: Vec<(AnimationKey, Animation)>,
    pub current_animation: Option<AnimationKey>,
}

impl View for AnimationController {
    type V = ControllerState;

    open spec fn view(&self) -> ControllerState {
        ControllerState {
            animations: table_view(self.animations@),
            current_animation: self.current_animation,
        }
    }
}

impl AnimationController {
    pub fn new() -> (r: Self)
        ensures
            r@ == ControllerState::empty(),
    {
        let r = Self { animations: Vec::new(), current_animation: None };
        assert(r@.animations =~= seq![]);
        r
    }

    /// A controller with the animations of `table`, none of which plays.
    pub fn with_animations(table: Vec<(AnimationKey, Animation)>) -> (r: Self)
        ensures
            r@ == (ControllerState { animations: table_view(table@), current_animation: None }),
    {
        Self { animations: table, current_animation: None }
    }

    /// Adds an animation under `key`, behind those that the controller has.
    pub fn add(&mut self, key: AnimationKey, animation: Animation)
        ensures
            final(self)@ == (ControllerState {
                animations: old(self)@.animations.push((key, animation@)),
                ..old(self)@
            }),
    {
        self.animations.push((key, animation));
        assert(self@.animations =~= old(self)@.animations.push((key, animation@)));
    }

    /// Tells whether every animation of the controller has a current
    /// sprite.
    pub fn is_wf(&self) -> (r: bool)
        ensures
            r == self@.wf(),
    {
        let mut i: usize = 0;
        while i < self.animations.len()
            invariant
                i <= self.animations@.len(),
                forall|k: int| 0 <= k < i ==> (#[trigger] self@.animations[k]).1.wf(),
            decreases self.animations@.len() - i,
        {
            if self.animations[i].1.current_index >= self.animations[i].1.sprite_indexes.len() {
                assert(!self@.animations[i as int].1.wf());
                return false;
            }
            i += 1;
        }
        true
    }

    /// The index of the animation under `key`.
    pub fn find(&self, key: AnimationKey) -> (r: Option<usize>)
        ensures
            match r {
                Some(i) => self@.first_under(key, i as int),
                None => forall|i: int| !self@.first_under(key, i),
            },
    {
        let mut i: usize = 0;
        while i < self.animations.len()
            invariant
                i <= self.animations@.len(),
                forall|j: int| 0 <= j < i ==> self@.animations[j].0 != key,
            decreases self.animations@.len() - i,
        {
            if self.animations[i].0 == key {
                return Some(i);
            }
            i += 1;
        }
        None
    }

    /// One tick of `time_delta` milliseconds for the animation that plays.
    /// Returns the sprite to show; `None` when no animation plays, or when
    /// the controller has none under the key.
    pub fn step(&mut self, time_delta: u32) -> (sprite: Option<usize>)
        requires
            old(self)@.wf(),
        ensures
            final(self)@.wf(),
            sprite == old(self)@.sprite(),
            final(self)@ == old(self)@.stepped(time_delta),
    {
        let key = match self.current_animation {
            Some(key) => key,
            None => {
                return None;
            },
        };
        match self.find(key) {
            Some(i) => {
                proof {
                    let chosen = choose|j: int| self@.first_under(key, j);
                    assert(self@.first_under(key, i as int));
                    assert(chosen == i) by {
                        if chosen < i {
                            assert(self@.animations[chosen].0 == key);
                        }
                        if i < chosen {
                            assert(self@.animations[i as int].0 == key);
                        }
                    }
                    assert(self@.animations[i as int].1.wf());
                }
                let animation = &mut self.animations[i].1;
                let s = animation.advance(time_delta);
                proof {
                    assert(self@.animations =~= old(self)@.stepped(time_delta).animations);
                    assert forall|j: int| 0 <= j < self@.animations.len() implies (
                    #[trigger] self@.animations[j]).1.wf() by {
                        if j != i {
                            assert(self@.animations[j] == old(self)@.animations[j]);
                        }
                    }
                }
                Some(s)
            },
            None => None,
        }
    }
}

/// What the animation system does for the animations and the sprites of the
/// entities: see `AnimationSystem::run`.
pub open spec fn animated(
    animations: Map<Entity, AnimationController>,
    sprites: Map<Entity, usize>,
    time_delta: u32,
) -> (Map<Entity, ControllerState>, Map<Entity, usize>) {
    (
        Map::new(
            |e: Entity| animations.dom().contains(e),
            |e: Entity|
                if sprites.dom().contains(e) {
                    animations[e]@.stepped(time_delta)
                } else {
                    animations[e]@
                },
        ),
        Map::new(
            |e: Entity| sprites.dom().contains(e),
            |e: Entity|
                if animations.dom().contains(e) && animations[e]@.sprite() is Some {
                    animations[e]@.sprite().unwrap()
                } else {
                    sprites[e]
                },
        ),
    )
}

/// Picks the sprite that each animated entity shows.
#[derive(Debug, Clone, Copy, Default)]
pub struct AnimationSystem;

impl AnimationSystem {
    /// One tick of `time_delta` milliseconds: for every entity with
    /// animations and a sprite, the animation that plays gives the sprite,
    /// and moves on in time. An entity whose animation does not play, or is
    /// missing, keeps its sprite.
    pub fn run(
        &mut self,
        animations: &mut Storage<AnimationController>,
        sprites: &mut Storage<usize>,
        time_delta: u32,
    )
        requires
            forall|e: Entity| old(animations)@.dom().contains(e) ==> (#[trigger] old(animations)@[e])@.wf(),
        ensures
            final(animations)@.dom() == old(animations)@.dom(),
            forall|e: Entity|
                old(animations)@.dom().contains(e) ==> (#[trigger] final(animations)@[e])@ == animated(
                    old(animations)@,
                    old(sprites)@,
                    time_delta,
                ).0[e],
            final(sprites)@ == animated(old(animations)@, old(sprites)@, time_delta).1,
    {
        let bound = animations.bound();
        let mut id: usize = 0;
        while id < bound
            invariant
                id <= bound,
                forall|e: Entity| old(animations)@.dom().contains(e) ==> e.id < bound,
                animations@.dom() == old(animations)@.dom(),
                forall|e: Entity| animations@.dom().contains(e) ==> (#[trigger] animations@[e])@.wf(),
                forall|e: Entity|
                    old(animations)@.dom().contains(e) ==> (#[trigger] animations@[e])@ == (if e.id
                        < id {
                        animated(old(animations)@, old(sprites)@, time_delta).0[e]
                    } else {
                        old(animations)@[e]@
                    }),
                sprites@ == Map::new(
                    |e: Entity| old(sprites)@.dom().contains(e),
                    |e: Entity|
                        if e.id < id {
                            animated(old(animations)@, old(sprites)@, time_delta).1[e]
                        } else {
                            old(sprites)@[e]
                        },
                ),
            decreases bound - id,
        {
            let entity = Entity { id };
            let mut shown: Option<usize> = None;
            if sprites.contains(entity) {
                if let Some(controller) = animations.get_mut(entity) {
                    shown = controller.step(time_delta);
                }
            }
            if let Some(sprite) = shown {
                sprites.insert(entity, sprite);
            }
            proof {
                assert(forall|e: Entity| e.id == id ==> e == entity);
                assert(animations@.dom() =~= old(animations)@.dom());
                assert(sprites@ =~= Map::new(
                    |e: Entity| old(sprites)@.dom().contains(e),
                    |e: Entity|
                        if e.id < id + 1 {
                            animated(old(animations)@, old(sprites)@, time_delta).1[e]
                        } else {
                            old(sprites)@[e]
                        },
                ));
            }
            id += 1;
        }
        assert(sprites@ =~= animated(old(animations)@, old(sprites)@, time_delta).1);
    }
}

} // verus!
