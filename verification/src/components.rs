//! What an entity of the map can be made of.

use vstd::prelude::*;
use crate::lighting::Light;

verus! {

/// The look of an entity.
#[derive(Debug, Clone, Copy, PartialEq, Eq, Structural)]
pub enum Tile {
    Player,
    Wall,
    Floor,
}

/// Everything one entity is made of. A part that is `None` is a part the
/// entity does not have.
#[derive(Debug, Clone, Copy, PartialEq, Eq)]
pub struct EntityData {
    pub tile: Option<Tile>,
    /// How much of a sight line the entity takes away, from 0 to 255.
    pub opacity: Option<u8>,
    /// Present on an entity that nobody can walk into.
    pub solid: Option<()>,
    pub light: Option<Light>,
}

impl Default for EntityData {
    /// An entity made of nothing.
    fn default() -> (data: EntityData)
        ensures
            data == (EntityData { tile: None, opacity: None, solid: None, light: None }),
    {
        EntityData { tile: None, opacity: None, solid: None, light: None }
    }
}

} // verus!
