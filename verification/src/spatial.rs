//! Where the entities are: the index from cells to entities and back.
//!
//! The index is kept by the `spatial_table` crate. This module says what the
//! calls that the world makes into that crate do, and nothing here is proved
//! of them.

use vstd::prelude::*;
use crate::coord::{Coordinate, GridSize};

verus! {

/// One value for each of the four layers of a cell.
#[derive(Debug, Clone, Copy, PartialEq, Eq)]
pub struct LayerTable<T> {
    pub floor: T,
    pub feature: T,
    pub character: T,
    pub item: T,
}

/// The layer of a cell that an entity stands in.
#[derive(Debug, Clone, Copy, PartialEq, Eq, Structural)]
pub enum Layer {
    Floor,
    Feature,
    Character,
    Item,
}

/// The entity in each layer of a cell.
pub type Layers = LayerTable<Option<gridbugs::entity_table::Entity>>;

impl<T> LayerTable<T> {
    /// The value in `layer`.
    pub open spec fn select(self, layer: Layer) -> T {
        match layer {
            Layer::Floor => self.floor,
            Layer::Feature => self.feature,
            Layer::Character => self.character,
            Layer::Item => self.item,
        }
    }

    /// The table with `value` in `layer` and every other layer as it is.
    pub open spec fn with(self, layer: Layer, value: T) -> LayerTable<T> {
        match layer {
            Layer::Floor => LayerTable { floor: value, ..self },
            Layer::Feature => LayerTable { feature: value, ..self },
            Layer::Character => LayerTable { character: value, ..self },
            Layer::Item => LayerTable { item: value, ..self },
        }
    }
}

impl<T> LayerTable<Option<T>> {
    pub open spec fn empty_spec() -> LayerTable<Option<T>> {
        LayerTable { floor: None, feature: None, character: None, item: None }
    }

    /// A cell with nothing in any layer.
    pub fn empty() -> (table: Self)
        ensures
            table == Self::empty_spec(),
    {
        LayerTable { floor: None, feature: None, character: None, item: None }
    }
}

impl Default for LayerTable<Option<gridbugs::entity_table::Entity>> {
    /// A cell with nothing in any layer, which is how the index starts
    /// every cell.
    fn default() -> (table: Self)
        ensures
            table == Self::empty_spec(),
    {
        LayerTable { floor: None, feature: None, character: None, item: None }
    }
}

/// The cells of the index: `spatial_table::Layers`, through which the index
/// reads and writes one layer of a cell.
impl gridbugs::spatial_table::Layers for LayerTable<Option<gridbugs::entity_table::Entity>> {
    type Layer = Layer;

    /// The layer that [`LayerTable::select`] reads and [`LayerTable::with`]
    /// writes.
    fn select_field_mut(&mut self, layer: Layer) -> (slot: &mut Option<
        gridbugs::entity_table::Entity,
    >)
        ensures
            *slot == old(self).select(layer),
            *final(self) == old(self).with(layer, *final(slot)),
    {
        match layer {
            Layer::Floor => &mut self.floor,
            Layer::Feature => &mut self.feature,
            Layer::Character => &mut self.character,
            Layer::Item => &mut self.item,
        }
    }
}

/// Where an entity is: its cell, and the layer it stands in if it stands in
/// one.
#[derive(Debug, Clone, Copy, PartialEq, Eq, Structural)]
pub struct Location {
    pub coord: Coordinate,
    pub layer: Option<Layer>,
}

/// Why an entity could not be put where it was to go.
#[derive(Debug, Clone, Copy, PartialEq, Eq)]
pub enum UpdateError {
    /// Another entity stands in that layer of that cell.
    OccupiedBy(gridbugs::entity_table::Entity),
    /// The cell is not on the grid.
    DestinationOutOfBounds,
}

/// The index itself: a `spatial_table::SpatialTable` over [`Layers`]. The
/// type is bound by a trait of that crate, so it is kept whole inside this
/// struct, and nothing is said of what it holds.
#[verifier::external_body]
pub struct SpatialTable {
    table: gridbugs::spatial_table::SpatialTable<Layers>,
}

/// The size of the grid that the index was made for.
pub uninterp spec fn spatial_size(table: SpatialTable) -> GridSize;

/// The location of every entity that has one.
pub uninterp spec fn spatial_locations(table: SpatialTable) -> Map<
    gridbugs::entity_table::Entity,
    Location,
>;

/// The entities in the layers of every cell of the grid.
pub uninterp spec fn spatial_layers(table: SpatialTable) -> Map<Coordinate, Layers>;

/// The error that keeps anything from being put at `location`, if there is
/// one: a layer of a cell beyond the grid, or a layer that is taken.
pub open spec fn placement_error(table: SpatialTable, location: Location) -> Option<UpdateError> {
    match location.layer {
        None => None,
        Some(layer) => if !spatial_size(table).contains(location.coord) {
            Some(UpdateError::DestinationOutOfBounds)
        } else {
            match spatial_layers(table)[location.coord].select(layer) {
                Some(occupant) => Some(UpdateError::OccupiedBy(occupant)),
                None => None,
            }
        },
    }
}

/// The layers of all cells once `entity` stands at `location`.
pub open spec fn layers_with(
    cells: Map<Coordinate, Layers>,
    entity: gridbugs::entity_table::Entity,
    location: Location,
) -> Map<Coordinate, Layers> {
    match location.layer {
        None => cells,
        Some(layer) => cells.insert(
            location.coord,
            cells[location.coord].with(layer, Some(entity)),
        ),
    }
}

/// The layers of all cells once nothing stands at `location`.
pub open spec fn layers_without(cells: Map<Coordinate, Layers>, location: Location) -> Map<
    Coordinate,
    Layers,
> {
    match location.layer {
        None => cells,
        Some(layer) => cells.insert(location.coord, cells[location.coord].with(layer, None)),
    }
}

/// No other entity with a location shares the index of `entity`.
pub open spec fn alone_in_slot(table: SpatialTable, entity: gridbugs::entity_table::Entity) -> bool {
    forall|other: gridbugs::entity_table::Entity|
        spatial_locations(table).contains_key(other) && other != entity
            ==> crate::entities::entity_slot(other) != crate::entities::entity_slot(entity)
}

/// `SpatialTable::new`: an index for a grid of `size` with no entity in it.
#[verifier::external_body]
pub(crate) fn new_spatial_table(size: GridSize) -> (table: SpatialTable)
    ensures
        spatial_size(table) == size,
        forall|entity: gridbugs::entity_table::Entity|
            !spatial_locations(table).contains_key(entity),
        forall|coord: Coordinate|
            size.contains(coord) ==> #[trigger] spatial_layers(table)[coord] == Layers::empty_spec(),
{
    let size = gridbugs::coord_2d::Size::new_u16(size.width, size.height);
    SpatialTable { table: gridbugs::spatial_table::SpatialTable::new(size) }
}

/// `SpatialTable::grid_size`: the size that the index was made with, which
/// came from a [`GridSize`] and so fits one.
#[verifier::external_body]
pub(crate) fn spatial_grid_size(table: &SpatialTable) -> (size: GridSize)
    ensures
        size == spatial_size(*table),
{
    let size = table.table.grid_size();
    GridSize { width: size.width() as u16, height: size.height() as u16 }
}

/// `SpatialTable::location_of`: the location of `entity`, if it has one.
#[verifier::external_body]
pub(crate) fn spatial_location_of(table: &SpatialTable, entity: gridbugs::entity_table::Entity) -> (
    location: Option<Location>)
    ensures
        location == if spatial_locations(*table).contains_key(entity) {
            Some(spatial_locations(*table)[entity])
        } else {
            None
        },
{
    table.table.location_of(entity).map(
        |found| Location { coord: Coordinate { x: found.coord.x, y: found.coord.y }, layer: found.layer },
    )
}

/// `SpatialTable::layers_at`: the layers of the cell at `coord`, or `None`
/// beyond the grid.
#[verifier::external_body]
pub(crate) fn spatial_layers_at(table: &SpatialTable, coord: Coordinate) -> (layers: Option<Layers>)
    ensures
        layers == if spatial_size(*table).contains(coord) {
            Some(spatial_layers(*table)[coord])
        } else {
            None
        },
{
    table.table.layers_at(gridbugs::coord_2d::Coord::new(coord.x, coord.y)).copied()
}

/// `SpatialTable::update` for an entity that has no location yet, and whose
/// index no entity with a location shares. The call fails, and changes
/// nothing, exactly where [`placement_error`] names an error. Else `entity`
/// gets `location` and, if that names a layer, stands in that layer of the
/// cell.
#[verifier::external_body]
pub(crate) fn spatial_place(
    table: &mut SpatialTable,
    entity: gridbugs::entity_table::Entity,
    location: Location,
) -> (done: Result<(), UpdateError>)
    requires
        !spatial_locations(*old(table)).contains_key(entity),
        alone_in_slot(*old(table), entity),
    ensures
        spatial_size(*final(table)) == spatial_size(*old(table)),
        match done {
            Ok(_) => placement_error(*old(table), location).is_none() && spatial_locations(
                *final(table),
            ) == spatial_locations(*old(table)).insert(entity, location) && spatial_layers(
                *final(table),
            ) == layers_with(spatial_layers(*old(table)), entity, location),
            Err(error) => placement_error(*old(table), location) == Some(error)
                && spatial_locations(*final(table)) == spatial_locations(*old(table))
                && spatial_layers(*final(table)) == spatial_layers(*old(table)),
        },
{
    let coord = gridbugs::coord_2d::Coord::new(location.coord.x, location.coord.y);
    let location = gridbugs::spatial_table::Location { coord, layer: location.layer };
    match table.table.update(entity, location) {
        Ok(()) => Ok(()),
        Err(gridbugs::spatial_table::UpdateError::OccupiedBy(occupant)) => Err(
            UpdateError::OccupiedBy(occupant),
        ),
        Err(gridbugs::spatial_table::UpdateError::DestinationOutOfBounds) => Err(
            UpdateError::DestinationOutOfBounds,
        ),
    }
}

/// Where `entity` would be after a move to `coord`: in the same layer of the
/// new cell.
pub open spec fn moved_to(table: SpatialTable, entity: gridbugs::entity_table::Entity, coord: Coordinate) -> Location {
    Location { coord, layer: spatial_locations(table)[entity].layer }
}

/// The error that keeps `entity` from moving to `coord`, if there is one. A
/// move to the cell that the entity is in already never fails.
pub open spec fn move_error(
    table: SpatialTable,
    entity: gridbugs::entity_table::Entity,
    coord: Coordinate,
) -> Option<UpdateError> {
    if coord == spatial_locations(table)[entity].coord {
        None
    } else {
        placement_error(table, moved_to(table, entity, coord))
    }
}

/// `SpatialTable::update_coord` for an entity that has a location and that
/// stands on the grid in the layer that its location names, if it names one. The call fails, and changes
/// nothing, exactly where [`move_error`] names an error. Else the entity is
/// at `coord`, in the layer it was in, and has left the cell it came from.
#[verifier::external_body]
pub(crate) fn spatial_move(
    table: &mut SpatialTable,
    entity: gridbugs::entity_table::Entity,
    coord: Coordinate,
) -> (done: Result<(), UpdateError>)
    requires
        spatial_locations(*old(table)).contains_key(entity),
        match spatial_locations(*old(table))[entity].layer {
            Some(layer) => spatial_size(*old(table)).contains(
                spatial_locations(*old(table))[entity].coord,
            ) && spatial_layers(*old(table))[spatial_locations(*old(table))[entity].coord].select(
                layer,
            ) == Some(entity),
            None => true,
        },
    ensures
        spatial_size(*final(table)) == spatial_size(*old(table)),
        match done {
            Ok(_) => move_error(*old(table), entity, coord).is_none() && spatial_locations(
                *final(table),
            ) == spatial_locations(*old(table)).insert(entity, moved_to(*old(table), entity, coord))
                && spatial_layers(*final(table)) == if coord == spatial_locations(
                *old(table),
            )[entity].coord {
                spatial_layers(*old(table))
            } else {
                layers_without(
                    layers_with(
                        spatial_layers(*old(table)),
                        entity,
                        moved_to(*old(table), entity, coord),
                    ),
                    spatial_locations(*old(table))[entity],
                )
            },
            Err(error) => move_error(*old(table), entity, coord) == Some(error)
                && spatial_locations(*final(table)) == spatial_locations(*old(table))
                && spatial_layers(*final(table)) == spatial_layers(*old(table)),
        },
{
    match table.table.update_coord(entity, gridbugs::coord_2d::Coord::new(coord.x, coord.y)) {
        Ok(()) => Ok(()),
        Err(gridbugs::spatial_table::UpdateError::OccupiedBy(occupant)) => Err(
            UpdateError::OccupiedBy(occupant),
        ),
        Err(gridbugs::spatial_table::UpdateError::DestinationOutOfBounds) => Err(
            UpdateError::DestinationOutOfBounds,
        ),
    }
}

} // verus!
