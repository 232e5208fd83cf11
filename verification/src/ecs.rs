//! Entities and their components.
//!
//! An entity is a number. A storage holds at most one component of its kind
//! for each entity.

use vstd::prelude::*;

use crate::event::Entity;

verus! {

/// Which entities there are.
pub ghost struct EntitiesState {
    /// How many entities have been created. The next one gets this id.
    pub created: nat,
    /// The entities that have been created and not deleted.
    pub alive: Set<Entity>,
}

/// The entities of the game. Ids are handed out in increasing order and never
/// used twice.
#[derive(Debug)]
pub struct Entities {
    alive: Vec<bool>,
}

impl View for Entities {
    type V = EntitiesState;

    closed spec fn view(&self) -> EntitiesState {
        EntitiesState {
            created: self.alive@.len(),
            alive: Set::new(|e: Entity| e.id < self.alive@.len() && self.alive@[e.id as int]),
        }
    }
}

impl Entities {
    pub fn new() -> (r: Self)
        ensures
            r@.created == 0,
            r@.alive == Set::<Entity>::empty(),
    {
        let r = Self { alive: Vec::new() };
        assert(r@.alive =~= Set::<Entity>::empty());
        r
    }

    /// Only entities that have been created are alive.
    pub proof fn lemma_alive_was_created(&self, entity: Entity)
        requires
            self@.alive.contains(entity),
        ensures
            entity.id < self@.created,
    {
    }

    /// Creates an entity.
    pub fn create(&mut self) -> (entity: Entity)
        ensures
            entity.id == old(self)@.created,
            final(self)@.created == old(self)@.created + 1,
            final(self)@.alive == old(self)@.alive.insert(entity),
    {
        let entity = Entity { id: self.alive.len() };
        self.alive.push(true);
        assert(self@.alive =~= old(self)@.alive.insert(entity));
        entity
    }

    pub fn is_alive(&self, entity: Entity) -> (r: bool)
        ensures
            r == self@.alive.contains(entity),
    {
        entity.id < self.alive.len() && self.alive[entity.id]
    }

    /// Deletes an entity. The result tells whether it was alive: deleting a
    /// dead entity changes nothing.
    pub fn delete(&mut self, entity: Entity) -> (was_alive: bool)
        ensures
            was_alive == old(self)@.alive.contains(entity),
            final(self)@.created == old(self)@.created,
            final(self)@.alive == old(self)@.alive.remove(entity),
    {
        if entity.id < self.alive.len() && self.alive[entity.id] {
            self.alive.set(entity.id, false);
            assert(self@.alive =~= old(self)@.alive.remove(entity));
            true
        } else {
            assert(self@.alive =~= old(self)@.alive.remove(entity));
            false
        }
    }
}

/// The components of one kind, by entity.
#[derive(Debug)]
pub struct Storage<T> {
    slots: Vec<Option<T>>,
}

impl<T> View for Storage<T> {
    type V = Map<Entity, T>;

    closed spec fn view(&self) -> Map<Entity, T> {
        Map::new(
            |e: Entity| e.id < self.slots@.len() && self.slots@[e.id as int] is Some,
            |e: Entity| self.slots@[e.id as int].unwrap(),
        )
    }
}

impl<T> Storage<T> {
    pub fn new() -> (r: Self)
        ensures
            r@ == Map::<Entity, T>::empty(),
    {
        let r = Self { slots: Vec::new() };
        assert(r@ =~= Map::<Entity, T>::empty());
        r
    }

    /// The component of `entity`, if it has one.
    pub fn get(&self, entity: Entity) -> (r: Option<&T>)
        ensures
            self@.dom().contains(entity) ==> r == Some(&self@[entity]),
            !self@.dom().contains(entity) ==> r is None,
    {
        if entity.id < self.slots.len() {
            match &self.slots[entity.id] {
                Some(component) => Some(component),
                None => None,
            }
        } else {
            None
        }
    }

    /// The component of `entity`, to be changed in place, if it has one.
    pub fn get_mut(&mut self, entity: Entity) -> (r: Option<&mut T>)
        ensures
            !old(self)@.dom().contains(entity) ==> r is None && final(self)@ == old(self)@,
            old(self)@.dom().contains(entity) ==> r is Some && *r.unwrap() == old(self)@[entity]
                && final(self)@ == old(self)@.insert(entity, *final(r.unwrap())),
    {
        if entity.id < self.slots.len() {
            let ghost before = self.slots@;
            match &mut self.slots[entity.id] {
                Some(component) => {
                    proof {
                        let after = before.update(entity.id as int, Some(*final(component)));
                        assert(Map::new(
                            |e: Entity| e.id < after.len() && after[e.id as int] is Some,
                            |e: Entity| after[e.id as int].unwrap(),
                        ) =~= old(self)@.insert(entity, *final(component)));
                    }
                    Some(component)
                },
                None => None,
            }
        } else {
            None
        }
    }

    pub fn contains(&self, entity: Entity) -> (r: bool)
        ensures
            r == self@.dom().contains(entity),
    {
        entity.id < self.slots.len() && self.slots[entity.id].is_some()
    }

    /// Gives `entity` the component, in place of the one it had.
    pub fn insert(&mut self, entity: Entity, component: T)
        ensures
            final(self)@ == old(self)@.insert(entity, component),
    {
        while self.slots.len() <= entity.id
            invariant
                self@ == old(self)@,
            decreases entity.id + 1 - self.slots@.len(),
        {
            let ghost before = self@;
            self.slots.push(None);
            assert(self@ =~= before);
        }
        self.slots.set(entity.id, Some(component));
        assert(self@ =~= old(self)@.insert(entity, component));
    }

    /// Takes the component of `entity` out of the storage and returns it, if
    /// the entity has one.
    pub fn remove(&mut self, entity: Entity) -> (r: Option<T>)
        ensures
            old(self)@.dom().contains(entity) ==> r == Some(old(self)@[entity]),
            !old(self)@.dom().contains(entity) ==> r is None,
            final(self)@ == old(self)@.remove(entity),
    {
        let mut taken: Option<T> = None;
        if entity.id < self.slots.len() {
            std::mem::swap(&mut taken, &mut self.slots[entity.id]);
        }
        assert(self@ =~= old(self)@.remove(entity));
        taken
    }

    /// An id above those of all the entities that have a component here.
    pub closed spec fn capacity(&self) -> nat {
        self.slots@.len()
    }

    /// An id above those of all the entities that have a component here.
    pub fn bound(&self) -> (r: usize)
        ensures
            r == self.capacity(),
            forall|e: Entity| self@.dom().contains(e) ==> e.id < r,
    {
        self.slots.len()
    }
}

} // verus!
