//! What a tile map tells the game: where things spawn, and which entities
//! came from the map.

use vstd::prelude::*;

use crate::event::Entity;
use crate::geometry::Position;

verus! {

/// Holds the entities of the tiles and props of a map, and what else the map
/// says of the arena.
#[derive(Debug)]
pub struct Tilemap {
    pub all_entities: Vec<Entity>,
    /// Where the player starts.
    pub player_spawn: Option<Position>,
    /// Where enemies may spawn.
    pub spawn_locations: Vec<Position>,
    /// Where the boss spawns.
    pub boss_spawn: Option<Position>,
}

impl Default for Tilemap {
    fn default() -> (r: Self)
        ensures
            r.all_entities@.len() == 0,
            r.player_spawn is None,
            r.spawn_locations@.len() == 0,
            r.boss_spawn is None,
    {
        Self {
            all_entities: Vec::new(),
            player_spawn: None,
            spawn_locations: Vec::new(),
            boss_spawn: None,
        }
    }
}

impl Tilemap {
    pub fn entities(&self) -> (r: &Vec<Entity>)
        ensures
            r@ == self.all_entities@,
    {
        &self.all_entities
    }
}

/// The number of offsets at the front of `offsets` that are not above
/// `tile_id`.
pub open spec fn leading_offsets(tile_id: u32, offsets: Seq<u32>) -> nat
    decreases offsets.len(),
{
    if offsets.len() == 0 || tile_id < offsets[0] {
        0
    } else {
        1 + leading_offsets(tile_id, offsets.skip(1))
    }
}

/// The index of the tile set of the tile `tile_id`, where the tile set at
/// index `i` starts at the tile id `offsets[i]`, and the offsets go from
/// smallest to largest: the last tile set that starts at or below the tile.
/// A tile below every tile set counts for the first.
pub open spec fn tileset_of(tile_id: u32, offsets: Seq<u32>) -> nat {
    if leading_offsets(tile_id, offsets) == 0 {
        0
    } else {
        (leading_offsets(tile_id, offsets) - 1) as nat
    }
}

/// The offsets at the front that are not above the tile, counted from `from`
/// on.
proof fn lemma_leading_offsets(tile_id: u32, offsets: Seq<u32>, from: int)
    requires
        0 <= from <= offsets.len(),
        forall|k: int| 0 <= k < from ==> offsets[k] <= tile_id,
    ensures
        leading_offsets(tile_id, offsets) == from + leading_offsets(tile_id, offsets.skip(from)),
    decreases from,
{
    if from == 0 {
        assert(offsets.skip(0) =~= offsets);
    } else {
        lemma_leading_offsets(tile_id, offsets, from - 1);
        let rest = offsets.skip(from - 1);
        assert(rest[0] == offsets[from - 1]);
        assert(rest.skip(1) =~= offsets.skip(from));
    }
}

/// Chooses the tile set of the tile `tile_id`. The offsets go from smallest
/// to largest.
pub fn choose_tileset(tile_id: u32, offsets: &Vec<u32>) -> (r: usize)
    ensures
        r == tileset_of(tile_id, offsets@),
{
    let mut tileset_idx: usize = 0;
    let mut i: usize = 0;
    while i < offsets.len()
        invariant
            i <= offsets@.len(),
            forall|k: int| 0 <= k < i ==> offsets@[k] <= tile_id,
            tileset_idx == (if i == 0 {
                0
            } else {
                i - 1
            }),
        decreases offsets@.len() - i,
    {
        if tile_id < offsets[i] {
            proof {
                lemma_leading_offsets(tile_id, offsets@, i as int);
                assert(offsets@.skip(i as int)[0] == offsets@[i as int]);
            }
            return tileset_idx;
        }
        tileset_idx = i;
        i += 1;
    }
    proof {
        lemma_leading_offsets(tile_id, offsets@, i as int);
        assert(offsets@.skip(i as int).len() == 0);
    }
    tileset_idx
}

} // verus!
