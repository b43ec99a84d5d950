use rl_visibility::colour::Rgb24;
use rl_visibility::coord::{CardinalDirection, Coordinate};
use rl_visibility::game::Game;
use rl_visibility::render::{
    holds_wall, remembered_character, render_cell, render_game_with_visibility,
    render_remembered, render_visible, tile_character, top_layer, CellDrawing, RenderCell,
};
use rl_visibility::components::Tile;
use rl_visibility::scene::{EntityTile, TileLayers};
use rl_visibility::spatial::{Layer, LayerTable, Location};
use rl_visibility::terrain::Terrain;
use rl_visibility::visibility::{CellVisibility, VisibilityCell};
use rl_visibility::world::World;

fn game_on(text: &str) -> Game {
    let text: Vec<char> = text.chars().collect();
    Game::new(Terrain::new(&text))
}

fn player_coord(game: &Game) -> Coordinate {
    game.world.entity_coord(game.player_entity).unwrap()
}

fn white(character: char) -> RenderCell {
    RenderCell { character, foreground: Rgb24::new(255, 255, 255) }
}

fn grey(character: char) -> RenderCell {
    RenderCell { character, foreground: Rgb24::new(127, 127, 127) }
}

fn some_entity() -> gridbugs::entity_table::Entity {
    gridbugs::entity_table::EntityAllocator::default().alloc()
}

#[test]
fn new_game_has_looked_around_once() {
    let game = game_on("#####\n#.@.#\n#..R#\n#####\n");
    assert_eq!(game.visibility_grid().count(), 1);
    assert_eq!(player_coord(&game), Coordinate::new(2, 1));
    assert_eq!(
        game.visibility_grid().classify(Coordinate::new(2, 1)),
        CellVisibility::CurrentlyVisibleWithLightColour(Some(Rgb24::new(255, 63, 63)))
    );
    for (_, cell) in game.visibility_grid().enumerate() {
        assert_eq!(cell.last_seen(), 1);
    }
}

#[test]
fn player_walks_onto_floor() {
    let mut game = game_on("#####\n#.@.#\n#..R#\n#####\n");
    game.player_walk(CardinalDirection::West);
    assert_eq!(player_coord(&game), Coordinate::new(1, 1));
    assert_eq!(game.visibility_grid().count(), 2);
    game.player_walk(CardinalDirection::South);
    assert_eq!(player_coord(&game), Coordinate::new(1, 2));
    game.player_walk(CardinalDirection::East);
    game.player_walk(CardinalDirection::East);
    assert_eq!(player_coord(&game), Coordinate::new(3, 2));
    game.player_walk(CardinalDirection::North);
    assert_eq!(player_coord(&game), Coordinate::new(3, 1));
    assert_eq!(game.visibility_grid().count(), 6);
    assert_eq!(
        game.world.layers_at(Coordinate::new(3, 1)).unwrap().character,
        Some(game.player_entity)
    );
    assert_eq!(game.world.layers_at(Coordinate::new(2, 1)).unwrap().character, None);
}

#[test]
fn wall_stops_the_player_and_the_clock() {
    let mut game = game_on("#####\n#.@.#\n#..R#\n#####\n");
    game.player_walk(CardinalDirection::North);
    assert_eq!(player_coord(&game), Coordinate::new(2, 1));
    assert_eq!(game.visibility_grid().count(), 1);
    game.player_walk(CardinalDirection::East);
    game.player_walk(CardinalDirection::East);
    assert_eq!(player_coord(&game), Coordinate::new(3, 1));
    assert_eq!(game.visibility_grid().count(), 2);
}

#[test]
fn player_does_not_step_where_there_is_no_floor() {
    let mut game = game_on(".@\t.\n");
    game.player_walk(CardinalDirection::East);
    assert_eq!(player_coord(&game), Coordinate::new(1, 0));
    assert_eq!(game.visibility_grid().count(), 2);
    game.player_walk(CardinalDirection::North);
    assert_eq!(player_coord(&game), Coordinate::new(1, 0));
    assert_eq!(game.visibility_grid().count(), 3);
    game.player_walk(CardinalDirection::West);
    assert_eq!(player_coord(&game), Coordinate::new(0, 0));
    game.player_walk(CardinalDirection::West);
    assert_eq!(player_coord(&game), Coordinate::new(0, 0));
    assert_eq!(game.visibility_grid().count(), 5);
}

#[test]
fn player_that_is_nowhere_sees_nothing() {
    let mut game = game_on(".@.\n");
    let mut elsewhere = gridbugs::entity_table::EntityAllocator::default();
    for _ in 0..10 {
        elsewhere.alloc();
    }
    game.player_entity = elsewhere.alloc();
    let before = game.visibility_grid().clone();
    game.update_visibility();
    assert_eq!(*game.visibility_grid(), before);
    assert_eq!(game.visibility_grid().count(), 1);
}

#[test]
fn player_gives_up_a_step_onto_someone_else() {
    let mut game = game_on(".@.\n");
    let other = game.world.insert_entity_data(
        Location { coord: Coordinate::new(2, 0), layer: Some(Layer::Character) },
        World::make_player(),
    );
    game.player_walk(CardinalDirection::East);
    assert_eq!(player_coord(&game), Coordinate::new(1, 0));
    assert_eq!(game.world.entity_coord(other), Some(Coordinate::new(2, 0)));
    assert_eq!(game.visibility_grid().count(), 2);
}

#[test]
fn walking_away_turns_sight_into_memory() {
    let row = format!("#@{}#", ".".repeat(22));
    let text = format!("{}\n{}\n{}\n", "#".repeat(25), row, "#".repeat(25));
    let mut game = game_on(&text);
    let start_wall = Coordinate::new(1, 0);
    let start_floor = Coordinate::new(1, 1);
    let far_wall = Coordinate::new(24, 1);
    assert!(matches!(
        game.visibility_grid().classify(start_wall),
        CellVisibility::CurrentlyVisibleWithLightColour(Some(_))
    ));
    assert_eq!(game.visibility_grid().classify(far_wall), CellVisibility::NeverVisible);
    assert_eq!(
        game.visibility_grid().get(far_wall).unwrap().tile_layers(),
        LayerTable::empty()
    );
    for _ in 0..15 {
        game.player_walk(CardinalDirection::East);
    }
    assert_eq!(player_coord(&game), Coordinate::new(16, 1));
    assert_eq!(game.visibility_grid().count(), 16);
    assert_eq!(game.visibility_grid().classify(start_wall), CellVisibility::PreviouslyVisible);
    assert_eq!(game.visibility_grid().classify(start_floor), CellVisibility::PreviouslyVisible);
    assert_eq!(game.visibility_grid().light_colour(start_wall), None);
    assert_eq!(game.visibility_grid().light_colour(start_floor), None);
    assert!(matches!(
        game.visibility_grid().classify(far_wall),
        CellVisibility::CurrentlyVisibleWithLightColour(Some(_))
    ));

    let frame = render_game_with_visibility(&game);
    assert_eq!(frame.len(), 75);
    let at = |coord: Coordinate| frame[(coord.y * 25 + coord.x) as usize].clone();
    assert_eq!(at(start_wall).0, start_wall);
    assert_eq!(at(start_wall).1, CellDrawing::Remembered(grey('\u{2592}')));
    assert_eq!(at(start_floor).1, CellDrawing::Remembered(grey('.')));
    assert_eq!(
        at(Coordinate::new(16, 1)).1,
        CellDrawing::Visible {
            cells: vec![white('.'), white('@')],
            light_colour: Some(Rgb24::new(63, 63, 63)),
        }
    );
    assert_eq!(
        at(far_wall).1,
        CellDrawing::Visible {
            cells: vec![white('\u{2588}')],
            light_colour: Some(Rgb24::new(3, 3, 3)),
        }
    );
}

#[test]
fn wall_in_the_row_hides_the_cells_behind_it_from_the_player() {
    let game = game_on("@.#..");
    let grid = game.visibility_grid();
    assert_eq!(grid.count(), 1);
    for x in 0..3 {
        let known = grid.get(Coordinate::new(x, 0)).unwrap().visibility(1, None);
        assert_eq!(known, CellVisibility::CurrentlyVisibleWithLightColour(None));
        assert_eq!(grid.get(Coordinate::new(x, 0)).unwrap().last_seen(), 1);
    }
    for x in 3..5 {
        let cell = grid.get(Coordinate::new(x, 0)).unwrap();
        assert_eq!(cell.visibility(1, None), CellVisibility::NeverVisible);
        assert_eq!(cell, VisibilityCell::unseen());
        assert_eq!(cell.tile_layers(), LayerTable::empty());
        assert_eq!(grid.light_colour(Coordinate::new(x, 0)), None);
        assert_eq!(grid.classify(Coordinate::new(x, 0)), CellVisibility::NeverVisible);
    }
    let wall = grid.get(Coordinate::new(2, 0)).unwrap().tile_layers();
    assert_eq!(wall.feature.map(|seen| seen.tile), Some(Tile::Wall));
    let frame = render_game_with_visibility(&game);
    assert_eq!(frame[3].1, CellDrawing::Nothing);
    assert_eq!(frame[4].1, CellDrawing::Nothing);
}

#[test]
fn players_light_fades_along_the_row() {
    let game = game_on("@...");
    let grid = game.visibility_grid();
    let greys: Vec<u8> = (0..4)
        .map(|x| match grid.classify(Coordinate::new(x, 0)) {
            CellVisibility::CurrentlyVisibleWithLightColour(Some(colour)) => {
                assert_eq!(colour, Rgb24::new_grey(colour.r));
                colour.r
            }
            other => panic!("cell {} is {:?}", x, other),
        })
        .collect();
    assert_eq!(greys, vec![63, 50, 31, 19]);
}

#[test]
fn tiles_have_their_characters() {
    assert_eq!(tile_character(Tile::Floor), '.');
    assert_eq!(tile_character(Tile::Wall), '\u{2588}');
    assert_eq!(tile_character(Tile::Player), '@');
    assert_eq!(remembered_character(Tile::Floor), '.');
    assert_eq!(remembered_character(Tile::Wall), '\u{2592}');
    assert_eq!(remembered_character(Tile::Player), '@');
}

#[test]
fn layers_are_drawn_from_the_floor_up() {
    let entity = some_entity();
    let mut layers: TileLayers = LayerTable::empty();
    layers.character = Some(EntityTile { entity, tile: Tile::Player });
    layers.floor = Some(EntityTile { entity, tile: Tile::Floor });
    layers.item = Some(EntityTile { entity, tile: Tile::Wall });
    let cell = VisibilityCell { last_seen: 3, tile_layers: layers };
    assert_eq!(render_visible(&cell), vec![white('.'), white('\u{2588}'), white('@')]);
    layers.feature = Some(EntityTile { entity, tile: Tile::Floor });
    let cell = VisibilityCell { last_seen: 3, tile_layers: layers };
    assert_eq!(
        render_visible(&cell),
        vec![white('.'), white('.'), white('\u{2588}'), white('@')]
    );
    assert_eq!(render_visible(&VisibilityCell::unseen()), Vec::<RenderCell>::new());
}

#[test]
fn remembered_wall_is_always_the_shaded_block() {
    let entity = some_entity();
    let floor = Some(EntityTile { entity, tile: Tile::Floor });
    let wall = Some(EntityTile { entity, tile: Tile::Wall });
    let player = Some(EntityTile { entity, tile: Tile::Player });
    let mut cell = VisibilityCell { last_seen: 1, tile_layers: LayerTable::empty() };
    cell.tile_layers.feature = wall;
    assert!(holds_wall(cell.tile_layers()));
    assert_eq!(render_remembered(&cell), Some(grey('\u{2592}')));
    for under in [None, floor] {
        for item in [None, floor, player] {
            for character in [None, player, floor] {
                cell.tile_layers.floor = under;
                cell.tile_layers.item = item;
                cell.tile_layers.character = character;
                assert_eq!(render_remembered(&cell), Some(grey('\u{2592}')));
                assert_eq!(render_cell(&cell, 2, None), CellDrawing::Remembered(grey('\u{2592}')));
            }
        }
    }
}

#[test]
fn memory_without_a_wall_draws_what_was_on_top() {
    let entity = some_entity();
    let floor = Some(EntityTile { entity, tile: Tile::Floor });
    let wall = Some(EntityTile { entity, tile: Tile::Wall });
    let player = Some(EntityTile { entity, tile: Tile::Player });
    let mut cell = VisibilityCell { last_seen: 1, tile_layers: LayerTable::empty() };
    assert_eq!(render_remembered(&cell), None);
    assert_eq!(top_layer(cell.tile_layers()), None);
    assert!(!holds_wall(cell.tile_layers()));
    cell.tile_layers.floor = floor;
    assert_eq!(render_remembered(&cell), Some(grey('.')));
    cell.tile_layers.feature = floor;
    assert!(!holds_wall(cell.tile_layers()));
    assert_eq!(render_remembered(&cell), Some(grey('.')));
    cell.tile_layers.item = player;
    assert_eq!(render_remembered(&cell), Some(grey('@')));
    assert_eq!(top_layer(cell.tile_layers()), player);
    cell.tile_layers.character = floor;
    assert_eq!(render_remembered(&cell), Some(grey('.')));
    cell.tile_layers.character = wall;
    assert!(!holds_wall(cell.tile_layers()));
    assert_eq!(render_remembered(&cell), Some(grey('\u{2592}')));
    cell.tile_layers.character = player;
    assert_eq!(render_remembered(&cell), Some(grey('@')));
}

#[test]
fn drawing_follows_what_is_known_of_the_cell() {
    let entity = some_entity();
    let mut layers: TileLayers = LayerTable::empty();
    layers.feature = Some(EntityTile { entity, tile: Tile::Wall });
    let colour = Some(Rgb24::new(9, 8, 7));
    let seen = VisibilityCell { last_seen: 4, tile_layers: layers };
    assert_eq!(
        render_cell(&seen, 4, colour),
        CellDrawing::Visible { cells: vec![white('\u{2588}')], light_colour: colour }
    );
    assert_eq!(
        render_cell(&seen, 4, None),
        CellDrawing::Visible { cells: vec![white('\u{2588}')], light_colour: None }
    );
    assert_eq!(render_cell(&seen, 5, colour), CellDrawing::Remembered(grey('\u{2592}')));
    assert_eq!(render_cell(&seen, 5, None), CellDrawing::Remembered(grey('\u{2592}')));
    let never = VisibilityCell { last_seen: 0, tile_layers: layers };
    assert_eq!(render_cell(&never, 0, None), CellDrawing::Nothing);
    assert_eq!(render_cell(&never, 4, colour), CellDrawing::Nothing);
    let bare = VisibilityCell { last_seen: 2, tile_layers: LayerTable::empty() };
    assert_eq!(render_cell(&bare, 3, colour), CellDrawing::Nothing);
    assert_eq!(
        render_cell(&bare, 2, colour),
        CellDrawing::Visible { cells: Vec::new(), light_colour: colour }
    );
}

#[test]
fn dark_cell_in_sight_is_drawn_without_light() {
    let (mut game, lamp) = (game_on("@..."), Rgb24::new(63, 63, 63));
    assert_eq!(game.visibility_grid().light_colour(Coordinate::new(0, 0)), Some(lamp));
    let size = game.visibility_grid().size();
    let mut scene = game.world.scene();
    scene.lights.clear();
    assert_eq!(game.visibility_grid.update(Coordinate::new(0, 0), &scene, None), Ok(()));
    assert_eq!(size.count(), 4);
    let frame = render_game_with_visibility(&game);
    assert_eq!(
        frame[0].1,
        CellDrawing::Visible { cells: vec![white('.'), white('@')], light_colour: None }
    );
    for x in 1..4 {
        assert_eq!(
            frame[x].1,
            CellDrawing::Visible { cells: vec![white('.')], light_colour: None }
        );
    }
}
