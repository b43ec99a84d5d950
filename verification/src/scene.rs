//! What the map looks like at one moment, as far as sight and light need it.

use vstd::prelude::*;
use crate::components::Tile;
use crate::coord::{Coordinate, GridSize};
use crate::grid::Grid;
use crate::lighting::Light;
use crate::shadowcast::opacity_at;
use crate::spatial::LayerTable;

verus! {

/// An entity together with its look.
#[derive(Debug, Clone, Copy, PartialEq, Eq)]
pub struct EntityTile {
    pub entity: gridbugs::entity_table::Entity,
    pub tile: Tile,
}

/// Who stands in each layer of a cell, and what each looks like.
pub type TileLayers = LayerTable<Option<EntityTile>>;

/// The map at one moment: how opaque each cell is, who stands where, and the
/// lights with their positions.
#[derive(Debug, Clone, PartialEq)]
pub struct Scene {
    pub opacity: Grid<u8>,
    pub occupants: Grid<TileLayers>,
    pub lights: Vec<(Coordinate, Light)>,
}

impl Scene {
    /// Both grids are well formed and of one size, and every light has a
    /// falloff with a denominator other than 0.
    pub open spec fn wf(&self) -> bool {
        &&& self.opacity.wf()
        &&& self.occupants.wf()
        &&& self.occupants.size == self.opacity.size
        &&& forall|i: int| 0 <= i < self.lights@.len() ==> (#[trigger] self.lights@[i]).1.wf()
    }

    /// A scene of the given size with clear, empty cells and no light.
    pub fn new(size: GridSize) -> (scene: Scene)
        requires
            size.wf(),
        ensures
            scene.wf(),
            scene.opacity.size == size,
            scene.lights@.len() == 0,
            forall|coord: Coordinate|
                #![trigger scene.opacity.at(coord)]
                #![trigger scene.occupants.at(coord)]
                size.contains(coord) ==> scene.opacity.at(coord) == 0 && scene.occupants.at(coord)
                    == TileLayers::empty_spec(),
    {
        Scene {
            opacity: Grid::filled(size, 0u8),
            occupants: Grid::filled(size, LayerTable::empty()),
            lights: Vec::new(),
        }
    }

    pub fn size(&self) -> (size: GridSize)
        ensures
            size == self.opacity.size,
    {
        self.opacity.size
    }

    /// The opacity at `coord`; beyond the grid space is clear.
    pub fn opacity_at(&self, coord: Coordinate) -> (opacity: u8)
        ensures
            opacity == opacity_at(&self.opacity, coord),
    {
        opacity_at(&self.opacity, coord)
    }

    /// Who stands at `coord`, or `None` beyond the grid.
    pub fn layers_at(&self, coord: Coordinate) -> (layers: Option<TileLayers>)
        requires
            self.wf(),
        ensures
            layers == if self.opacity.size.contains(coord) {
                Some(self.occupants.at(coord))
            } else {
                None
            },
    {
        match self.occupants.get(coord) {
            Some(layers) => Some(*layers),
            None => None,
        }
    }
}

} // verus!
