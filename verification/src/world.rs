//! The map: its entities, what they are made of and where they stand.

use vstd::prelude::*;
use crate::colour::Rgb24;
use crate::components::{EntityData, Tile};
use crate::coord::{Circle, Coordinate, GridSize};
use crate::entities::{
    allocate_entity,
    allocator_issued,
    allocator_live,
    component_entries,
    entity_slot,
    get_component,
    insert_component,
    list_components,
    new_allocator,
    new_components,
};
use crate::grid::Grid;
use crate::lighting::{Light, Rational};
use crate::scene::{EntityTile, Scene, TileLayers};
use crate::spatial::{
    layers_with,
    layers_without,
    move_error,
    moved_to,
    new_spatial_table,
    placement_error,
    spatial_grid_size,
    spatial_layers,
    spatial_layers_at,
    spatial_location_of,
    spatial_locations,
    spatial_move,
    spatial_place,
    spatial_size,
    Layer,
    LayerTable,
    Layers,
    Location,
    SpatialTable,
    UpdateError,
};

verus! {

/// The parts of every entity, by entity.
pub type Components = gridbugs::entity_table::ComponentTable<EntityData>;

pub struct World {
    pub entity_allocator: gridbugs::entity_table::EntityAllocator,
    pub components: Components,
    pub spatial_table: SpatialTable,
}

impl World {
    /// The size of the map.
    pub open spec fn size_spec(&self) -> GridSize {
        spatial_size(self.spatial_table)
    }

    /// The entities that exist.
    pub open spec fn live(&self) -> Set<gridbugs::entity_table::Entity> {
        allocator_live(self.entity_allocator)
    }

    /// How many entities were ever made.
    pub open spec fn issued(&self) -> nat {
        allocator_issued(self.entity_allocator)
    }

    /// Where each entity is.
    pub open spec fn locations(&self) -> Map<gridbugs::entity_table::Entity, Location> {
        spatial_locations(self.spatial_table)
    }

    /// Who stands in the layers of each cell.
    pub open spec fn layers(&self) -> Map<Coordinate, Layers> {
        spatial_layers(self.spatial_table)
    }

    /// What each entity is made of.
    pub open spec fn data(&self) -> Map<gridbugs::entity_table::Entity, EntityData> {
        component_entries(self.components)
    }

    /// The map hangs together: its size is valid; only entities that exist
    /// have a location or parts, and no two of them share an index; an
    /// entity whose location names a layer stands in that layer of that
    /// cell, and whoever stands in a layer of a cell has that location;
    /// every light has a falloff with a denominator other than 0.
    pub open spec fn wf(&self) -> bool {
        &&& self.size_spec().wf()
        &&& forall|entity: gridbugs::entity_table::Entity| #[trigger]
            self.locations().contains_key(entity) ==> self.live().contains(entity)
        &&& forall|entity: gridbugs::entity_table::Entity| #[trigger]
            self.data().contains_key(entity) ==> self.live().contains(entity)
        &&& forall|a: gridbugs::entity_table::Entity, b: gridbugs::entity_table::Entity|
            self.live().contains(a) && self.live().contains(b) && a != b ==> #[trigger] entity_slot(
                a,
            ) != #[trigger] entity_slot(b)
        &&& forall|entity: gridbugs::entity_table::Entity| #[trigger]
            self.locations().contains_key(entity) ==> self.stands_where_located(entity)
        &&& forall|coord: Coordinate, layer: Layer|
            self.size_spec().contains(coord) ==> self.located_where_standing(coord, layer)
        &&& forall|entity: gridbugs::entity_table::Entity| #[trigger]
            self.data().contains_key(entity) ==> match self.data()[entity].light {
                Some(light) => light.wf(),
                None => true,
            }
    }

    /// If the location of `entity` names a layer, the cell is on the map and
    /// `entity` stands in that layer of it.
    pub open spec fn stands_where_located(&self, entity: gridbugs::entity_table::Entity) -> bool {
        match self.locations()[entity].layer {
            Some(layer) => self.size_spec().contains(self.locations()[entity].coord)
                && self.layers()[self.locations()[entity].coord].select(layer) == Some(entity),
            None => true,
        }
    }

    /// If an entity stands in `layer` of the cell at `coord`, its location
    /// says so.
    pub open spec fn located_where_standing(&self, coord: Coordinate, layer: Layer) -> bool {
        match #[trigger] self.layers()[coord].select(layer) {
            Some(entity) => self.locations().contains_key(entity) && self.locations()[entity] == (
            Location { coord, layer: Some(layer) }),
            None => true,
        }
    }

    /// A map of the given size without entities.
    pub fn new(size: GridSize) -> (world: World)
        requires
            size.wf(),
        ensures
            world.wf(),
            world.size_spec() == size,
            world.issued() == 0,
            world.live() == Set::<gridbugs::entity_table::Entity>::empty(),
            forall|entity: gridbugs::entity_table::Entity|
                #![trigger world.locations().contains_key(entity)]
                #![trigger world.data().contains_key(entity)]
                !world.locations().contains_key(entity) && !world.data().contains_key(entity),
            forall|coord: Coordinate|
                size.contains(coord) ==> #[trigger] world.layers()[coord] == Layers::empty_spec(),
    {
        let entity_allocator = new_allocator();
        let components = new_components();
        let spatial_table = new_spatial_table(size);
        World { entity_allocator, components, spatial_table }
    }

    pub fn size(&self) -> (size: GridSize)
        ensures
            size == self.size_spec(),
    {
        spatial_grid_size(&self.spatial_table)
    }

    /// The cell that `entity` is in, if it is anywhere.
    pub fn entity_coord(&self, entity: gridbugs::entity_table::Entity) -> (coord: Option<Coordinate>)
        ensures
            coord == if self.locations().contains_key(entity) {
                Some(self.locations()[entity].coord)
            } else {
                None
            },
    {
        match spatial_location_of(&self.spatial_table, entity) {
            Some(location) => Some(location.coord),
            None => None,
        }
    }

    /// The opacity of the cell at `coord`: that of the entity in its feature
    /// layer, and 0 where there is no such entity, where it has no opacity,
    /// and beyond the map.
    pub open spec fn opacity_spec(&self, coord: Coordinate) -> u8 {
        if self.size_spec().contains(coord) {
            match self.layers()[coord].feature {
                Some(entity) => if self.data().contains_key(entity) {
                    match self.data()[entity].opacity {
                        Some(opacity) => opacity,
                        None => 0,
                    }
                } else {
                    0
                },
                None => 0,
            }
        } else {
            0
        }
    }

    pub fn get_opacity_at_coord(&self, coord: Coordinate) -> (opacity: u8)
        ensures
            opacity == self.opacity_spec(coord),
    {
        match spatial_layers_at(&self.spatial_table, coord) {
            Some(layers) => match layers.feature {
                Some(entity) => match get_component(&self.components, entity) {
                    Some(data) => match data.opacity {
                        Some(opacity) => opacity,
                        None => 0,
                    },
                    None => 0,
                },
                None => 0,
            },
            None => 0,
        }
    }

    /// The entity in one layer of a cell together with its look, where an
    /// entity stands there and has a look.
    pub open spec fn tile_of_spec(&self, occupant: Option<gridbugs::entity_table::Entity>) -> Option<
        EntityTile,
    > {
        match occupant {
            Some(entity) => if self.data().contains_key(entity) {
                match self.data()[entity].tile {
                    Some(tile) => Some(EntityTile { entity, tile }),
                    None => None,
                }
            } else {
                None
            },
            None => None,
        }
    }

    /// Who stands in the cell at `coord`, layer by layer, each with its look.
    pub open spec fn tile_layers_spec(&self, coord: Coordinate) -> TileLayers {
        LayerTable {
            floor: self.tile_of_spec(self.layers()[coord].floor),
            feature: self.tile_of_spec(self.layers()[coord].feature),
            character: self.tile_of_spec(self.layers()[coord].character),
            item: self.tile_of_spec(self.layers()[coord].item),
        }
    }

    fn tile_of(&self, occupant: Option<gridbugs::entity_table::Entity>) -> (found: Option<
        EntityTile,
    >)
        ensures
            found == self.tile_of_spec(occupant),
    {
        match occupant {
            Some(entity) => match get_component(&self.components, entity) {
                Some(data) => match data.tile {
                    Some(tile) => Some(EntityTile { entity, tile }),
                    None => None,
                },
                None => None,
            },
            None => None,
        }
    }

    /// Who stands in the cell at `coord`, each with its look, or `None`
    /// beyond the map.
    pub fn tile_layers_at(&self, coord: Coordinate) -> (layers: Option<TileLayers>)
        ensures
            layers == if self.size_spec().contains(coord) {
                Some(self.tile_layers_spec(coord))
            } else {
                None
            },
    {
        match spatial_layers_at(&self.spatial_table, coord) {
            Some(layers) => Some(
                LayerTable {
                    floor: self.tile_of(layers.floor),
                    feature: self.tile_of(layers.feature),
                    character: self.tile_of(layers.character),
                    item: self.tile_of(layers.item),
                },
            ),
            None => None,
        }
    }

    /// `entity` is a light that has a location.
    pub open spec fn is_placed_light(&self, entity: gridbugs::entity_table::Entity) -> bool {
        self.data().contains_key(entity) && self.data()[entity].light.is_some()
            && self.locations().contains_key(entity)
    }

    /// `lights` holds the lights of `owners`, one for one, each with the
    /// cell its owner is in; and `owners` holds every light that has a
    /// location, once.
    pub open spec fn lists_lights(
        &self,
        lights: Seq<(Coordinate, Light)>,
        owners: Seq<gridbugs::entity_table::Entity>,
    ) -> bool {
        &&& owners.len() == lights.len()
        &&& owners.no_duplicates()
        &&& forall|i: int|
            0 <= i < owners.len() ==> self.is_placed_light(#[trigger] owners[i]) && lights[i] == (
                self.locations()[owners[i]].coord,
                self.data()[owners[i]].light.unwrap(),
            )
        &&& forall|entity: gridbugs::entity_table::Entity| #[trigger]
            self.is_placed_light(entity) ==> owners.contains(entity)
    }

    /// Every light that has a location, with the cell it is in. Each light
    /// comes once; the order is that of the table of parts.
    pub fn all_lights_by_coord(&self) -> (lights: Vec<(Coordinate, Light)>)
        ensures
            exists|owners: Seq<gridbugs::entity_table::Entity>| self.lists_lights(lights@, owners),
    {
        let all = list_components(&self.components);
        let mut lights: Vec<(Coordinate, Light)> = Vec::new();
        let ghost mut owners: Seq<gridbugs::entity_table::Entity> = Seq::empty();
        let mut i: usize = 0;
        while i < all.len()
            invariant
                i <= all@.len(),
                owners.len() == lights@.len(),
                forall|k: int|
                    0 <= k < all@.len() ==> self.data().contains_key((#[trigger] all@[k]).0)
                        && self.data()[all@[k].0] == all@[k].1,
                forall|k: int, j: int|
                    0 <= k < j < all@.len() ==> (#[trigger] all@[k]).0 != (#[trigger] all@[j]).0,
                forall|k: int|
                    0 <= k < owners.len() ==> self.is_placed_light(#[trigger] owners[k])
                        && lights@[k] == (
                        self.locations()[owners[k]].coord,
                        self.data()[owners[k]].light.unwrap(),
                    ) && exists|j: int| 0 <= j < i && (#[trigger] all@[j]).0 == owners[k],
                owners.no_duplicates(),
                forall|j: int|
                    0 <= j < i && self.is_placed_light((#[trigger] all@[j]).0) ==> owners.contains(
                        all@[j].0,
                    ),
            decreases all@.len() - i,
        {
            let entity = all[i].0;
            let data = all[i].1;
            match data.light {
                Some(light) => match spatial_location_of(&self.spatial_table, entity) {
                    Some(location) => {
                        lights.push((location.coord, light));
                        proof {
                            let ghost before = owners;
                            assert forall|k: int| 0 <= k < before.len() implies before[k]
                                != entity by {
                                let j = choose|j: int|
                                    0 <= j < i && (#[trigger] all@[j]).0 == before[k];
                                assert(all@[j].0 != all@[i as int].0);
                            }
                            owners = before.push(entity);
                            assert(owners[owners.len() - 1] == entity);
                            assert forall|j: int|
                                0 <= j < i + 1 && self.is_placed_light(
                                    (#[trigger] all@[j]).0,
                                ) implies owners.contains(all@[j].0) by {
                                if j < i {
                                    let at = choose|at: int|
                                        0 <= at < before.len() && before[at] == all@[j].0;
                                    assert(owners[at] == all@[j].0);
                                }
                            }
                            assert forall|k: int|
                                #![trigger owners[k]]
                                0 <= k < owners.len() implies exists|j: int|
                                0 <= j < i + 1 && (#[trigger] all@[j]).0 == owners[k] by {
                                if k < before.len() {
                                    let j = choose|j: int|
                                        0 <= j < i && (#[trigger] all@[j]).0 == before[k];
                                    assert(all@[j].0 == owners[k]);
                                } else {
                                    assert(all@[i as int].0 == owners[k]);
                                }
                            }
                        }
                    },
                    None => {},
                },
                None => {},
            }
            i = i + 1;
        }
        proof {
            assert forall|entity: gridbugs::entity_table::Entity| #[trigger]
                self.is_placed_light(entity) implies owners.contains(entity) by {
                let j = choose|j: int| 0 <= j < all@.len() && (#[trigger] all@[j]).0 == entity;
                assert(self.is_placed_light(all@[j].0));
            }
            assert(self.lists_lights(lights@, owners));
        }
        lights
    }

    /// What the player is made of.
    pub fn make_player() -> (player: EntityData)
        ensures
            player == (EntityData {
                tile: Some(Tile::Player),
                opacity: None,
                solid: None,
                light: Some(
                    Light {
                        colour: Rgb24 { r: 63, g: 63, b: 63 },
                        vision_distance: Circle { distance_squared: 90 },
                        diminish: Rational { numerator: 1, denominator: 4 },
                    },
                ),
            }),
    {
        EntityData {
            tile: Some(Tile::Player),
            opacity: None,
            solid: None,
            light: Some(
                Light {
                    colour: Rgb24::new_grey(63),
                    vision_distance: Circle::new_squared(90),
                    diminish: Rational { numerator: 1, denominator: 4 },
                },
            ),
        }
    }

    /// Whether the map after is the map before with one more entity, made
    /// of `data` and put at `location`.
    pub open spec fn gained(
        before: World,
        after: World,
        entity: gridbugs::entity_table::Entity,
        location: Location,
        data: EntityData,
    ) -> bool {
        &&& after.size_spec() == before.size_spec()
        &&& !before.live().contains(entity)
        &&& after.live() == before.live().insert(entity)
        &&& after.issued() == before.issued() + 1
        &&& after.locations() == before.locations().insert(entity, location)
        &&& after.layers() == layers_with(before.layers(), entity, location)
        &&& after.data() == before.data().insert(entity, data)
    }

    /// Makes a floor entity in the cell at `coord`.
    pub fn spawn_floor(&mut self, coord: Coordinate) -> (entity: gridbugs::entity_table::Entity)
        requires
            old(self).wf(),
            old(self).issued() < u32::MAX,
            old(self).size_spec().contains(coord),
            old(self).layers()[coord].floor.is_none(),
        ensures
            final(self).wf(),
            World::gained(
                *old(self),
                *final(self),
                entity,
                Location { coord, layer: Some(Layer::Floor) },
                EntityData { tile: Some(Tile::Floor), opacity: None, solid: None, light: None },
            ),
    {
        self.insert_entity_data(
            Location { coord, layer: Some(Layer::Floor) },
            EntityData { tile: Some(Tile::Floor), opacity: None, solid: None, light: None },
        )
    }

    /// Makes a wall in the cell at `coord`: a solid feature that lets no
    /// sight through.
    pub fn spawn_wall(&mut self, coord: Coordinate) -> (entity: gridbugs::entity_table::Entity)
        requires
            old(self).wf(),
            old(self).issued() < u32::MAX,
            old(self).size_spec().contains(coord),
            old(self).layers()[coord].feature.is_none(),
        ensures
            final(self).wf(),
            World::gained(
                *old(self),
                *final(self),
                entity,
                Location { coord, layer: Some(Layer::Feature) },
                EntityData {
                    tile: Some(Tile::Wall),
                    opacity: Some(255),
                    solid: Some(()),
                    light: None,
                },
            ),
    {
        self.insert_entity_data(
            Location { coord, layer: Some(Layer::Feature) },
            EntityData { tile: Some(Tile::Wall), opacity: Some(255), solid: Some(()), light: None },
        )
    }

    /// Makes a light of the given colour at `coord`. The light stands in no
    /// layer, so it shares the cell with whatever is there.
    pub fn spawn_light(&mut self, coord: Coordinate, colour: Rgb24) -> (entity:
        gridbugs::entity_table::Entity)
        requires
            old(self).wf(),
            old(self).issued() < u32::MAX,
        ensures
            final(self).wf(),
            World::gained(
                *old(self),
                *final(self),
                entity,
                Location { coord, layer: None },
                EntityData {
                    tile: None,
                    opacity: None,
                    solid: None,
                    light: Some(
                        Light {
                            colour,
                            vision_distance: Circle { distance_squared: 200 },
                            diminish: Rational { numerator: 1, denominator: 10 },
                        },
                    ),
                },
            ),
    {
        self.insert_entity_data(
            Location { coord, layer: None },
            EntityData {
                tile: None,
                opacity: None,
                solid: None,
                light: Some(
                    Light {
                        colour,
                        vision_distance: Circle::new_squared(200),
                        diminish: Rational { numerator: 1, denominator: 10 },
                    },
                ),
            },
        )
    }

    /// Makes an entity of `entity_data` and puts it at `location`, which
    /// must be free: a layer of a cell of the map in which nobody stands, or
    /// no layer at all.
    pub fn insert_entity_data(&mut self, location: Location, entity_data: EntityData) -> (entity:
        gridbugs::entity_table::Entity)
        requires
            old(self).wf(),
            old(self).issued() < u32::MAX,
            placement_error(old(self).spatial_table, location).is_none(),
            match entity_data.light {
                Some(light) => light.wf(),
                None => true,
            },
        ensures
            final(self).wf(),
            World::gained(*old(self), *final(self), entity, location, entity_data),
    {
        let entity = allocate_entity(&mut self.entity_allocator);
        assert(!old(self).locations().contains_key(entity) && !old(self).data().contains_key(
            entity,
        ));
        let _ = spatial_place(&mut self.spatial_table, entity, location);
        let _ = insert_component(&mut self.components, entity, entity_data);
        proof {
            let before = *old(self);
            let after = *self;
            assert forall|other: gridbugs::entity_table::Entity| #[trigger]
                after.locations().contains_key(other) implies after.stands_where_located(
                other,
            ) by {
                if other != entity {
                    assert(before.stands_where_located(other));
                }
            }
            assert forall|coord: Coordinate, layer: Layer|
                after.size_spec().contains(coord) implies after.located_where_standing(
                coord,
                layer,
            ) by {
                assert(before.located_where_standing(coord, layer));
            }
        }
        entity
    }

    /// `scene` shows this map: it has the map's size, the opacity and the
    /// occupants of every cell, and every light that has a location, once.
    pub open spec fn depicted_by(&self, scene: Scene) -> bool {
        &&& scene.wf()
        &&& scene.opacity.size == self.size_spec()
        &&& forall|coord: Coordinate|
            #![trigger scene.opacity.at(coord)]
            #![trigger scene.occupants.at(coord)]
            self.size_spec().contains(coord) ==> scene.opacity.at(coord) == self.opacity_spec(
                coord,
            ) && scene.occupants.at(coord) == self.tile_layers_spec(coord)
        &&& exists|owners: Seq<gridbugs::entity_table::Entity>|
            self.lists_lights(scene.lights@, owners)
    }

    /// The entities in the layers of the cell at `coord`, or `None` beyond
    /// the map.
    pub fn layers_at(&self, coord: Coordinate) -> (layers: Option<Layers>)
        ensures
            layers == if self.size_spec().contains(coord) {
                Some(self.layers()[coord])
            } else {
                None
            },
    {
        spatial_layers_at(&self.spatial_table, coord)
    }

    /// Whether `entity` is solid: nobody can walk into it.
    pub open spec fn is_solid_spec(&self, entity: gridbugs::entity_table::Entity) -> bool {
        self.data().contains_key(entity) && self.data()[entity].solid.is_some()
    }

    #[verifier::when_used_as_spec(is_solid_spec)]
    pub fn is_solid(&self, entity: gridbugs::entity_table::Entity) -> (solid: bool)
        ensures
            solid == self.is_solid_spec(entity),
    {
        match get_component(&self.components, entity) {
            Some(data) => data.solid.is_some(),
            None => false,
        }
    }

    /// Moves `entity`, which has a location, to the cell at `coord`, where
    /// it stands in the layer it stood in before.
    ///
    /// An entity that stands in a layer cannot move beyond the map nor into
    /// a cell where that layer is taken; then nothing changes and the error
    /// says which of the two it was. A move to the cell that the entity is
    /// in already does nothing and succeeds.
    pub fn move_entity(&mut self, entity: gridbugs::entity_table::Entity, coord: Coordinate) -> (done:
        Result<(), UpdateError>)
        requires
            old(self).wf(),
            old(self).locations().contains_key(entity),
        ensures
            final(self).wf(),
            final(self).size_spec() == old(self).size_spec(),
            final(self).live() == old(self).live(),
            final(self).issued() == old(self).issued(),
            final(self).data() == old(self).data(),
            match done {
                Ok(_) => move_error(old(self).spatial_table, entity, coord).is_none()
                    && final(self).locations() == old(self).locations().insert(
                    entity,
                    moved_to(old(self).spatial_table, entity, coord),
                ) && final(self).layers() == if coord == old(self).locations()[entity].coord {
                    old(self).layers()
                } else {
                    layers_without(
                        layers_with(
                            old(self).layers(),
                            entity,
                            moved_to(old(self).spatial_table, entity, coord),
                        ),
                        old(self).locations()[entity],
                    )
                },
                Err(error) => move_error(old(self).spatial_table, entity, coord) == Some(error)
                    && final(self).locations() == old(self).locations() && final(self).layers()
                    == old(self).layers(),
            },
    {
        assert(old(self).stands_where_located(entity));
        let done = spatial_move(&mut self.spatial_table, entity, coord);
        proof {
            let before = *old(self);
            let after = *self;
            let from = before.locations()[entity];
            if done.is_ok() && coord == from.coord {
                assert(after.locations() =~= before.locations());
            }
            assert forall|at: Coordinate, layer: Layer|
                after.size_spec().contains(at) implies after.located_where_standing(
                at,
                layer,
            ) by {
                assert(before.located_where_standing(at, layer));
            }
            if done.is_ok() && coord != from.coord {
                assert forall|other: gridbugs::entity_table::Entity| #[trigger]
                    after.locations().contains_key(other) implies after.stands_where_located(
                    other,
                ) by {
                    if other != entity {
                        assert(before.locations().contains_key(other));
                        assert(before.stands_where_located(other));
                    }
                }
            }
        }
        done
    }

    /// The map as sight and light read it: the opacity of every cell, who
    /// stands in it, and the lights.
    pub fn scene(&self) -> (scene: Scene)
        requires
            self.wf(),
        ensures
            self.depicted_by(scene),
    {
        let size = self.size();
        let count = size.count();
        let mut opacity: Vec<u8> = Vec::new();
        let mut occupants: Vec<TileLayers> = Vec::new();
        let mut i: usize = 0;
        while i < count
            invariant
                i <= count,
                size.wf(),
                size == self.size_spec(),
                count == size.count_spec(),
                opacity@.len() == i,
                occupants@.len() == i,
                forall|k: int|
                    0 <= k < i ==> opacity@[k] == self.opacity_spec(size.coord_spec(k))
                        && occupants@[k] == self.tile_layers_spec(size.coord_spec(k)),
            decreases count - i,
        {
            let coord = size.coord_of(i);
            opacity.push(self.get_opacity_at_coord(coord));
            match self.tile_layers_at(coord) {
                Some(layers) => occupants.push(layers),
                None => occupants.push(LayerTable::empty()),
            }
            i = i + 1;
        }
        let lights = self.all_lights_by_coord();
        let scene = Scene {
            opacity: Grid { size, cells: opacity },
            occupants: Grid { size, cells: occupants },
            lights,
        };
        proof {
            assert forall|coord: Coordinate| self.size_spec().contains(coord) implies (
            scene.opacity.at(coord) == self.opacity_spec(coord) && scene.occupants.at(coord)
                == self.tile_layers_spec(coord)) by {
                size.lemma_index_in_range(coord);
            }
            let owners = choose|owners: Seq<gridbugs::entity_table::Entity>|
                self.lists_lights(scene.lights@, owners);
            assert forall|i: int| 0 <= i < scene.lights@.len() implies (
            #[trigger] scene.lights@[i]).1.wf() by {
                assert(self.is_placed_light(owners[i]));
            }
        }
        scene
    }
}

/// Two lists that hold the same items, each as often in one as in the
/// other, still do so after every item is replaced by its image under `f`.
proof fn lemma_same_items_same_images<A, B>(first: Seq<A>, second: Seq<A>, f: spec_fn(A) -> B)
    requires
        first.to_multiset() == second.to_multiset(),
    ensures
        first.map_values(f).to_multiset() == second.map_values(f).to_multiset(),
    decreases first.len(),
{
    first.to_multiset_ensures();
    second.to_multiset_ensures();
    if first.len() == 0 {
        assert(second.len() == 0);
        assert(first.map_values(f) =~= second.map_values(f));
    } else {
        let last = first.last();
        let rest = first.drop_last();
        rest.to_multiset_ensures();
        assert(first =~= rest.push(last));
        assert(first[first.len() - 1] == last);
        assert(first.to_multiset().count(last) > 0);
        assert(second.to_multiset().count(last) > 0);
        assert(second.contains(last));
        let index = choose|index: int| 0 <= index < second.len() && second[index] == last;
        let others = second.remove(index);
        assert(rest.to_multiset() =~= first.to_multiset().remove(last));
        assert(others.to_multiset() =~= second.to_multiset().remove(last));
        lemma_same_items_same_images(rest, others, f);
        let first_images = first.map_values(f);
        let second_images = second.map_values(f);
        assert(first_images =~= rest.map_values(f).push(f(last)));
        assert(second_images.remove(index) =~= others.map_values(f));
        rest.map_values(f).to_multiset_ensures();
        second_images.to_multiset_ensures();
        assert(second_images[index] == f(last));
        assert(second_images.to_multiset().count(f(last)) > 0);
        assert(second_images.to_multiset() =~= second_images.remove(index).to_multiset().insert(
            f(last),
        ));
    }
}

impl World {
    /// Two lists of the lights of one world hold the same lights, each as
    /// often in one as in the other.
    pub proof fn lemma_light_lists_agree(
        &self,
        first: Seq<(Coordinate, Light)>,
        first_owners: Seq<gridbugs::entity_table::Entity>,
        second: Seq<(Coordinate, Light)>,
        second_owners: Seq<gridbugs::entity_table::Entity>,
    )
        requires
            self.lists_lights(first, first_owners),
            self.lists_lights(second, second_owners),
        ensures
            first.to_multiset() == second.to_multiset(),
    {
        first_owners.lemma_multiset_has_no_duplicates();
        second_owners.lemma_multiset_has_no_duplicates();
        first_owners.to_multiset_ensures();
        second_owners.to_multiset_ensures();
        assert forall|entity: gridbugs::entity_table::Entity|
            first_owners.to_multiset().count(entity) == second_owners.to_multiset().count(
                entity,
            ) by {
            if first_owners.contains(entity) {
                let i = choose|i: int| 0 <= i < first_owners.len() && first_owners[i] == entity;
                assert(self.is_placed_light(first_owners[i]));
                assert(second_owners.contains(entity));
                assert(first_owners.to_multiset().contains(entity));
                assert(second_owners.to_multiset().contains(entity));
            } else if second_owners.contains(entity) {
                let i = choose|i: int| 0 <= i < second_owners.len() && second_owners[i] == entity;
                assert(self.is_placed_light(second_owners[i]));
                assert(first_owners.contains(entity));
            }
        }
        assert(first_owners.to_multiset() =~= second_owners.to_multiset());
        let light_of = |entity: gridbugs::entity_table::Entity|
            (self.locations()[entity].coord, self.data()[entity].light.unwrap());
        lemma_same_items_same_images(first_owners, second_owners, light_of);
        assert(first =~= first_owners.map_values(light_of));
        assert(second =~= second_owners.map_values(light_of));
    }

    /// Two scenes that show one world are the same to sight and to light:
    /// whatever differs between them, which can only be the order of the
    /// lights, changes neither what is seen from anywhere nor the occupants
    /// or the colour of any cell.
    pub proof fn lemma_scenes_agree(
        &self,
        first: Scene,
        second: Scene,
        observer: Coordinate,
        vision: Circle,
        coord: Coordinate,
    )
        requires
            self.depicted_by(first),
            self.depicted_by(second),
            self.size_spec().contains(coord),
        ensures
            crate::shadowcast::remaining_visibility(first.opacity, observer, vision, coord)
                == crate::shadowcast::remaining_visibility(second.opacity, observer, vision, coord),
            first.occupants.at(coord) == second.occupants.at(coord),
            crate::lighting::lit_colour(first.opacity, first.lights@, coord)
                == crate::lighting::lit_colour(second.opacity, second.lights@, coord),
    {
        let size = self.size_spec();
        assert(first.opacity.at(coord) == self.opacity_spec(coord) && first.occupants.at(coord)
            == self.tile_layers_spec(coord));
        assert(second.opacity.at(coord) == self.opacity_spec(coord) && second.occupants.at(coord)
            == self.tile_layers_spec(coord));
        assert(first.opacity.cells@ =~= second.opacity.cells@) by {
            assert forall|i: int| 0 <= i < first.opacity.cells@.len() implies first.opacity.cells@[i]
                == second.opacity.cells@[i] by {
                size.lemma_coord_in_range(i);
                let at = size.coord_spec(i);
                assert(first.opacity.at(at) == self.opacity_spec(at));
                assert(second.opacity.at(at) == self.opacity_spec(at));
            }
        }
        let first_owners = choose|owners: Seq<gridbugs::entity_table::Entity>|
            self.lists_lights(first.lights@, owners);
        let second_owners = choose|owners: Seq<gridbugs::entity_table::Entity>|
            self.lists_lights(second.lights@, owners);
        self.lemma_light_lists_agree(first.lights@, first_owners, second.lights@, second_owners);
        crate::lighting::lemma_lit_colour_reads_opacities(
            first.opacity,
            second.opacity,
            first.lights@,
            coord,
        );
        crate::lighting::lemma_lighting_ignores_order(
            second.opacity,
            first.lights@,
            second.lights@,
            coord,
        );
    }
}

} // verus!
