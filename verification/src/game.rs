//! The game: a world, the player in it, and what the player has seen.

use vstd::prelude::*;
use crate::coord::{CardinalDirection, Coordinate};
use crate::scene::Scene;
use crate::terrain::Terrain;
use crate::visibility::{follows, observer_vision, VisibilityGrid};
use crate::world::World;

verus! {

pub struct Game {
    pub world: World,
    pub player_entity: gridbugs::entity_table::Entity,
    pub visibility_grid: VisibilityGrid,
}

impl Game {
    /// The world hangs together, and the memory of what was seen has the
    /// size of the world.
    pub open spec fn wf(&self) -> bool {
        &&& self.world.wf()
        &&& self.visibility_grid.wf()
        &&& self.visibility_grid.cells.size == self.world.size_spec()
    }

    /// The player is somewhere in the world.
    pub open spec fn player_is_placed(&self) -> bool {
        self.world.locations().contains_key(self.player_entity)
    }

    /// The cell from which the player in `world` looks around when the
    /// memory is `seen`, or `None` where no look is taken: where the player
    /// is nowhere or beyond the map, and where the counter of the memory
    /// cannot rise.
    pub open spec fn looks_from(
        world: World,
        player: gridbugs::entity_table::Entity,
        seen: VisibilityGrid,
    ) -> Option<Coordinate> {
        if world.locations().contains_key(player) && world.size_spec().contains(
            world.locations()[player].coord,
        ) && seen.count < u64::MAX {
            Some(world.locations()[player].coord)
        } else {
            None
        }
    }

    /// `after` is the memory `before` after a look around `world` by
    /// `player`: updated from the player's cell over a scene that shows the
    /// world, or unchanged where no look is taken.
    pub open spec fn looked(
        world: World,
        player: gridbugs::entity_table::Entity,
        before: VisibilityGrid,
        after: VisibilityGrid,
    ) -> bool {
        match Game::looks_from(world, player, before) {
            Some(observer) => exists|scene: Scene| #[trigger]
                world.depicted_by(scene) && follows(
                    before,
                    after,
                    observer,
                    scene,
                    observer_vision(None),
                ),
            None => after == before,
        }
    }

    /// A game on `terrain`, in which the player has looked around once,
    /// starting from a memory in which nothing was ever seen.
    pub fn new(terrain: Terrain) -> (game: Game)
        requires
            terrain.wf(),
        ensures
            game.wf(),
            game.player_is_placed(),
            game.world == terrain.world,
            game.player_entity == terrain.player_entity,
            exists|unseen: VisibilityGrid|
                unseen.wf() && unseen.cells.size == terrain.world.size_spec()
                    && #[trigger] unseen.is_blank() && Game::looked(
                    terrain.world,
                    terrain.player_entity,
                    unseen,
                    game.visibility_grid,
                ),
    {
        let Terrain { world, player_entity } = terrain;
        let visibility_grid = VisibilityGrid::new(world.size());
        let mut game = Game { world, player_entity, visibility_grid };
        game.update_visibility();
        game
    }

    /// Lets the player look around from where it stands and remembers what
    /// it sees. A player that is nowhere sees nothing, and then the memory
    /// stays as it is, its counter included. The same holds of a player
    /// beyond the map and of a memory whose counter cannot rise.
    pub fn update_visibility(&mut self)
        requires
            old(self).wf(),
        ensures
            final(self).wf(),
            final(self).world == old(self).world,
            final(self).player_entity == old(self).player_entity,
            Game::looked(
                old(self).world,
                old(self).player_entity,
                old(self).visibility_grid,
                final(self).visibility_grid,
            ),
            match Game::looks_from(
                old(self).world,
                old(self).player_entity,
                old(self).visibility_grid,
            ) {
                Some(observer) => final(self).visibility_grid.count
                    == old(self).visibility_grid.count + 1 && final(self).visibility_grid.cell(
                    observer,
                ).last_seen == final(self).visibility_grid.count,
                None => true,
            },
    {
        match self.world.entity_coord(self.player_entity) {
            Some(player_coord) => {
                let scene = self.world.scene();
                let _ = self.visibility_grid.update(player_coord, &scene, None);
            },
            None => {},
        }
    }

    pub fn visibility_grid(&self) -> (grid: &VisibilityGrid)
        ensures
            *grid == self.visibility_grid,
    {
        &self.visibility_grid
    }

    /// The cell one step from the player in `direction`, where that cell
    /// can be written at all.
    pub open spec fn destination(&self, direction: CardinalDirection) -> Option<Coordinate> {
        let from = self.world.locations()[self.player_entity].coord;
        let step = direction.coord_spec();
        if i32::MIN <= from.x + step.x <= i32::MAX && i32::MIN <= from.y + step.y <= i32::MAX {
            Some(Coordinate { x: (from.x + step.x) as i32, y: (from.y + step.y) as i32 })
        } else {
            None
        }
    }

    /// Whether a step in `direction` runs into something solid: the
    /// destination is a cell of the map with a solid feature.
    pub open spec fn blocked(&self, direction: CardinalDirection) -> bool {
        match self.destination(direction) {
            Some(to) => self.world.size_spec().contains(to) && match self.world.layers()[to].feature {
                Some(feature) => self.world.is_solid_spec(feature),
                None => false,
            },
            None => false,
        }
    }

    /// The cell that the player tries to move to on a step in `direction`
    /// that is not blocked: the destination, where that is a cell of the
    /// map with a floor.
    pub open spec fn steps_to(&self, direction: CardinalDirection) -> Option<Coordinate> {
        match self.destination(direction) {
            Some(to) => if self.world.size_spec().contains(to)
                && self.world.layers()[to].floor.is_some() {
                Some(to)
            } else {
                None
            },
            None => None,
        }
    }

    /// One step of the player, who must be somewhere in the world, in
    /// `direction`.
    ///
    /// A step into a solid feature changes nothing at all. Any other step
    /// ends with a look around. Before that the player moves to the
    /// destination if there is a floor there; a move that the map refuses is
    /// given up, and the player stays where it is.
    pub fn player_walk(&mut self, direction: CardinalDirection)
        requires
            old(self).wf(),
            old(self).player_is_placed(),
        ensures
            final(self).wf(),
            final(self).player_is_placed(),
            final(self).player_entity == old(self).player_entity,
            old(self).blocked(direction) ==> *final(self) == *old(self),
            !old(self).blocked(direction) ==> Game::looked(
                final(self).world,
                final(self).player_entity,
                old(self).visibility_grid,
                final(self).visibility_grid,
            ) && match old(self).steps_to(direction) {
                Some(to) => Game::walked(old(self).world, final(self).world, old(self).player_entity, to),
                None => final(self).world == old(self).world,
            },
    {
        let player_coord = match self.world.entity_coord(self.player_entity) {
            Some(coord) => coord,
            None => {
                return ;
            },
        };
        let step = direction.coord();
        match player_coord.checked_offset(step.x, step.y) {
            Some(destination) => match self.world.layers_at(destination) {
                Some(layers) => {
                    match layers.feature {
                        Some(feature) => if self.world.is_solid(feature) {
                            return ;
                        },
                        None => {},
                    }
                    if layers.floor.is_some() {
                        let _ = self.world.move_entity(self.player_entity, destination);
                    }
                },
                None => {},
            },
            None => {},
        }
        self.update_visibility();
    }

    /// `after` is the world `before` after the try to move `player` to
    /// `to`: with the player there, in its layer, where the map lets it, and
    /// unchanged where the map refuses.
    pub open spec fn walked(
        before: World,
        after: World,
        player: gridbugs::entity_table::Entity,
        to: Coordinate,
    ) -> bool {
        &&& after.size_spec() == before.size_spec()
        &&& after.live() == before.live()
        &&& after.issued() == before.issued()
        &&& after.data() == before.data()
        &&& match crate::spatial::move_error(before.spatial_table, player, to) {
            None => after.locations() == before.locations().insert(
                player,
                crate::spatial::moved_to(before.spatial_table, player, to),
            ) && after.layers() == if to == before.locations()[player].coord {
                before.layers()
            } else {
                crate::spatial::layers_without(
                    crate::spatial::layers_with(
                        before.layers(),
                        player,
                        crate::spatial::moved_to(before.spatial_table, player, to),
                    ),
                    before.locations()[player],
                )
            },
            Some(_) => after.locations() == before.locations() && after.layers()
                == before.layers(),
        }
    }
}

/// A look has one outcome. Whatever scene of the world it is taken over,
/// and so in whatever order the lights of the world are listed, the memory
/// ends with the same counter and the same record for every cell.
pub proof fn lemma_look_is_determined(
    world: World,
    player: gridbugs::entity_table::Entity,
    before: VisibilityGrid,
    first: VisibilityGrid,
    second: VisibilityGrid,
    coord: Coordinate,
)
    requires
        before.cells.size == world.size_spec(),
        Game::looked(world, player, before, first),
        Game::looked(world, player, before, second),
        world.size_spec().contains(coord),
    ensures
        first.count == second.count,
        first.cells.size == second.cells.size,
        first.cell(coord) == second.cell(coord),
        first.light_at(coord) == second.light_at(coord),
{
    match Game::looks_from(world, player, before) {
        Some(observer) => {
            let vision = observer_vision(None);
            let first_scene = choose|scene: Scene| #[trigger]
                world.depicted_by(scene) && follows(before, first, observer, scene, vision);
            let second_scene = choose|scene: Scene| #[trigger]
                world.depicted_by(scene) && follows(before, second, observer, scene, vision);
            world.lemma_scenes_agree(first_scene, second_scene, observer, vision, coord);
        },
        None => {},
    }
}

/// A look never forgets. After a look, a cell that was seen at some time
/// is in sight, or it keeps its record, counts as seen before and has no
/// colour, whatever the lights throw on it now.
pub proof fn lemma_look_remembers(
    world: World,
    player: gridbugs::entity_table::Entity,
    before: VisibilityGrid,
    after: VisibilityGrid,
    coord: Coordinate,
)
    requires
        before.wf(),
        before.cells.size == world.size_spec(),
        Game::looked(world, player, before, after),
        Game::looks_from(world, player, before).is_some(),
        world.size_spec().contains(coord),
        before.cell(coord).last_seen > 0,
    ensures
        after.cell(coord).last_seen == after.count || (after.cell(coord) == before.cell(coord)
            && after.light_at(coord).is_none() && after.classify_spec(coord)
            == crate::visibility::CellVisibility::PreviouslyVisible),
{
    let observer = Game::looks_from(world, player, before).unwrap();
    let vision = observer_vision(None);
    let scene = choose|scene: Scene| #[trigger]
        world.depicted_by(scene) && follows(before, after, observer, scene, vision);
    if crate::shadowcast::remaining_visibility(scene.opacity, observer, vision, coord) == 0 {
        crate::visibility::lemma_cell_left_behind_is_remembered(
            before,
            after,
            observer,
            scene,
            vision,
            coord,
        );
    } else {
        assert(after.cell(coord) == crate::visibility::updated_cell(
            before.cell(coord),
            after.count,
            scene,
            observer,
            vision,
            coord,
        ));
    }
}

} // verus!
