use rl_visibility::colour::Rgb24;
use rl_visibility::components::Tile;
use rl_visibility::coord::{Circle, Coordinate, GridSize};
use rl_visibility::lighting::{Light, Rational};
use rl_visibility::terrain::{
    is_control, marking_of, parse_terrain, Marking, Terrain, TerrainError,
};
use rl_visibility::world::World;

fn chars(text: &str) -> Vec<char> {
    text.chars().collect()
}

fn lamp(colour: Rgb24) -> Light {
    Light {
        colour,
        vision_distance: Circle::new_squared(200),
        diminish: Rational { numerator: 1, denominator: 10 },
    }
}

#[test]
fn plan_holds_what_the_text_draws() {
    let plan = parse_terrain(&chars("#R.\n\n.@G\n")).unwrap();
    assert_eq!(plan.cells.size, GridSize::new(3, 2).unwrap());
    assert_eq!(plan.player, Coordinate::new(1, 1));
    assert_eq!(
        plan.cells.cells,
        vec![
            Marking::Wall,
            Marking::RedLight,
            Marking::Floor,
            Marking::Floor,
            Marking::Player,
            Marking::GreenLight,
        ]
    );
}

#[test]
fn short_rows_leave_cells_unmarked() {
    let plan = parse_terrain(&chars("..@.\n.\n\n\n..\n")).unwrap();
    assert_eq!(plan.cells.size, GridSize::new(4, 3).unwrap());
    assert_eq!(*plan.cells.get(Coordinate::new(0, 1)).unwrap(), Marking::Floor);
    assert_eq!(*plan.cells.get(Coordinate::new(1, 1)).unwrap(), Marking::Nothing);
    assert_eq!(*plan.cells.get(Coordinate::new(1, 2)).unwrap(), Marking::Floor);
    assert_eq!(*plan.cells.get(Coordinate::new(2, 2)).unwrap(), Marking::Nothing);
}

#[test]
fn control_characters_take_a_place_and_mark_nothing() {
    let plan = parse_terrain(&chars(".@\t.\r\n....\r\n")).unwrap();
    assert_eq!(plan.cells.size, GridSize::new(5, 2).unwrap());
    assert_eq!(*plan.cells.get(Coordinate::new(2, 0)).unwrap(), Marking::Nothing);
    assert_eq!(*plan.cells.get(Coordinate::new(3, 0)).unwrap(), Marking::Floor);
    assert_eq!(*plan.cells.get(Coordinate::new(4, 0)).unwrap(), Marking::Nothing);
    assert_eq!(*plan.cells.get(Coordinate::new(4, 1)).unwrap(), Marking::Nothing);
}

#[test]
fn width_is_the_length_of_the_first_row_in_utf8() {
    let plan = parse_terrain(&chars("@\u{85}\n...\n")).unwrap();
    assert_eq!(plan.cells.size, GridSize::new(3, 2).unwrap());
    assert_eq!(*plan.cells.get(Coordinate::new(1, 0)).unwrap(), Marking::Nothing);
    assert_eq!(*plan.cells.get(Coordinate::new(2, 1)).unwrap(), Marking::Floor);
}

#[test]
fn text_without_rows_is_empty() {
    assert_eq!(parse_terrain(&chars("")), Err(TerrainError::Empty));
    assert_eq!(parse_terrain(&chars("\n\n\n")), Err(TerrainError::Empty));
}

#[test]
fn text_wider_or_higher_than_the_limit_is_too_large() {
    let mut wide = vec!['.'; 16385];
    wide[0] = '@';
    assert_eq!(parse_terrain(&wide), Err(TerrainError::TooLarge));
    let mut high = Vec::new();
    for _ in 0..16385 {
        high.push('@');
        high.push('\n');
    }
    assert_eq!(parse_terrain(&high), Err(TerrainError::TooLarge));
    let mut fits = vec!['.'; 16384];
    fits[5] = '@';
    assert_eq!(parse_terrain(&fits).unwrap().cells.size, GridSize::new(16384, 1).unwrap());
}

#[test]
fn unknown_character_is_unexpected() {
    assert_eq!(parse_terrain(&chars("..x\n.@.\n")), Err(TerrainError::UnexpectedChar('x')));
    assert_eq!(parse_terrain(&chars("@ ")), Err(TerrainError::UnexpectedChar(' ')));
    assert_eq!(parse_terrain(&chars("@.\u{e9}")), Err(TerrainError::UnexpectedChar('\u{e9}')));
}

#[test]
fn mark_right_of_the_map_is_out_of_bounds() {
    assert_eq!(parse_terrain(&chars("@.\n...\n")), Err(TerrainError::OutOfBounds));
    assert_eq!(parse_terrain(&chars("..\n..\t\n")).err(), Some(TerrainError::NoPlayer));
}

#[test]
fn second_player_is_refused() {
    assert_eq!(parse_terrain(&chars("@@")), Err(TerrainError::SecondPlayer));
    assert_eq!(parse_terrain(&chars("@..\n...\n..@\n")), Err(TerrainError::SecondPlayer));
}

#[test]
fn map_without_player_is_refused() {
    assert_eq!(parse_terrain(&chars("...\n#RG\n")), Err(TerrainError::NoPlayer));
}

#[test]
fn first_fault_in_reading_order_is_reported() {
    assert_eq!(parse_terrain(&chars("@.\n.@\n?.\n")), Err(TerrainError::SecondPlayer));
    assert_eq!(parse_terrain(&chars("@.\n?@\n")), Err(TerrainError::UnexpectedChar('?')));
    assert_eq!(parse_terrain(&chars(".\n.@\n?\n")), Err(TerrainError::OutOfBounds));
    assert_eq!(parse_terrain(&chars(".\n.?\n")), Err(TerrainError::UnexpectedChar('?')));
}

#[test]
fn characters_are_classified() {
    assert_eq!(marking_of('.'), Some(Marking::Floor));
    assert_eq!(marking_of('R'), Some(Marking::RedLight));
    assert_eq!(marking_of('G'), Some(Marking::GreenLight));
    assert_eq!(marking_of('#'), Some(Marking::Wall));
    assert_eq!(marking_of('@'), Some(Marking::Player));
    assert_eq!(marking_of('r'), None);
    for code in 0..0x300u32 {
        let c = char::from_u32(code).unwrap();
        assert_eq!(is_control(c), c.is_control());
    }
    assert!(!is_control('\u{2588}'));
}

#[test]
fn world_is_built_as_drawn() {
    let terrain = Terrain::new(&chars("#R.\n.@G\n"));
    let world = &terrain.world;
    assert_eq!(world.size(), GridSize::new(3, 2).unwrap());
    assert_eq!(world.entity_coord(terrain.player_entity), Some(Coordinate::new(1, 1)));

    let wall = world.tile_layers_at(Coordinate::new(0, 0)).unwrap();
    assert_eq!(wall.feature.map(|seen| seen.tile), Some(Tile::Wall));
    assert!(wall.floor.is_none() && wall.character.is_none() && wall.item.is_none());
    assert_eq!(world.get_opacity_at_coord(Coordinate::new(0, 0)), 255);
    assert!(world.is_solid(world.layers_at(Coordinate::new(0, 0)).unwrap().feature.unwrap()));

    for coord in [Coordinate::new(1, 0), Coordinate::new(2, 0), Coordinate::new(0, 1)] {
        let cell = world.tile_layers_at(coord).unwrap();
        assert_eq!(cell.floor.map(|seen| seen.tile), Some(Tile::Floor));
        assert!(cell.feature.is_none() && cell.character.is_none() && cell.item.is_none());
        assert_eq!(world.get_opacity_at_coord(coord), 0);
    }

    let home = world.tile_layers_at(Coordinate::new(1, 1)).unwrap();
    assert_eq!(home.floor.map(|seen| seen.tile), Some(Tile::Floor));
    assert_eq!(
        home.character.map(|seen| (seen.entity, seen.tile)),
        Some((terrain.player_entity, Tile::Player))
    );

    let mut lights = world.all_lights_by_coord();
    lights.sort_by_key(|(coord, _)| (coord.y, coord.x));
    assert_eq!(
        lights,
        vec![
            (Coordinate::new(1, 0), lamp(Rgb24::new(255, 0, 0))),
            (Coordinate::new(1, 1), World::make_player().light.unwrap()),
            (Coordinate::new(2, 1), lamp(Rgb24::new(0, 255, 0))),
        ]
    );
}

#[test]
fn unmarked_cell_has_no_floor() {
    let terrain = Terrain::new(&chars(".@\t."));
    let gap = terrain.world.tile_layers_at(Coordinate::new(2, 0)).unwrap();
    assert!(gap.floor.is_none() && gap.feature.is_none() && gap.character.is_none());
    assert!(terrain.world.tile_layers_at(Coordinate::new(3, 0)).unwrap().floor.is_some());
}

#[test]
fn text_that_parses_builds_the_world_it_draws() {
    let texts = ["@", "#R.\n.@G\n", "..\r\n.@\r\n", "@\u{85}\n###\n", ".\n\n@\n"];
    for text in texts {
        let text = chars(text);
        let plan = parse_terrain(&text).unwrap();
        let terrain = Terrain::new(&text);
        assert_eq!(terrain.world.size(), plan.cells.size);
        assert_eq!(terrain.world.entity_coord(terrain.player_entity), Some(plan.player));
        for (index, marking) in plan.cells.cells.iter().enumerate() {
            let coord = plan.cells.size.coord_of(index);
            let cell = terrain.world.tile_layers_at(coord).unwrap();
            let opaque = terrain.world.get_opacity_at_coord(coord) == 255;
            assert_eq!(opaque, *marking == Marking::Wall);
            assert_eq!(terrain.world.get_opacity_at_coord(coord) == 0, *marking != Marking::Wall);
            assert_eq!(cell.feature.is_some(), *marking == Marking::Wall);
            assert_eq!(cell.character.is_some(), *marking == Marking::Player);
            let floored = *marking != Marking::Wall && *marking != Marking::Nothing;
            assert_eq!(cell.floor.is_some(), floored);
            assert!(cell.item.is_none());
        }
    }
}
