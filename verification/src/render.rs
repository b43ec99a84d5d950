//! What to draw for each cell of the map.
//!
//! Nothing here touches a screen. The functions say which characters go on
//! which cell, in which colour and under which light; putting them there is
//! left to whoever owns the window.

use vstd::prelude::*;
use crate::colour::Rgb24;
use crate::components::Tile;
use crate::coord::Coordinate;
use crate::game::Game;
use crate::scene::{EntityTile, TileLayers};
use crate::visibility::{CellVisibility, VisibilityCell};

verus! {

/// The brightness of everything that is in sight.
pub const VISIBLE_GREY: u8 = 255;

/// The brightness of whatever is only remembered.
pub const REMEMBERED_GREY: u8 = 127;

/// The character that stands for a remembered wall.
pub const REMEMBERED_WALL: char = '\u{2592}';

/// One character to draw, with its colour.
#[derive(Debug, Clone, Copy, PartialEq, Eq, Structural)]
pub struct RenderCell {
    pub character: char,
    pub foreground: Rgb24,
}

/// What to draw on one cell.
#[derive(Debug, Clone, PartialEq, Eq)]
pub enum CellDrawing {
    /// Leave the cell empty.
    Nothing,
    /// Draw these, one over the other from first to last: under this light
    /// where there is one, and as they are where there is none.
    Visible { cells: Vec<RenderCell>, light_colour: Option<Rgb24> },
    /// Draw this, untinted.
    Remembered(RenderCell),
}

/// The character that a tile is drawn as.
pub open spec fn tile_character_spec(tile: Tile) -> char {
    match tile {
        Tile::Floor => '.',
        Tile::Wall => '\u{2588}',
        Tile::Player => '@',
    }
}

#[verifier::when_used_as_spec(tile_character_spec)]
pub fn tile_character(tile: Tile) -> (character: char)
    ensures
        character == tile_character_spec(tile),
{
    match tile {
        Tile::Floor => '.',
        Tile::Wall => '\u{2588}',
        Tile::Player => '@',
    }
}

/// What is drawn for one layer of a cell in sight: the tile of its occupant,
/// in full white, or nothing for an empty layer.
pub open spec fn layer_cells(occupant: Option<EntityTile>) -> Seq<RenderCell> {
    match occupant {
        Some(seen) => seq![
            RenderCell {
                character: tile_character_spec(seen.tile),
                foreground: Rgb24 { r: VISIBLE_GREY, g: VISIBLE_GREY, b: VISIBLE_GREY },
            },
        ],
        None => Seq::empty(),
    }
}

/// What is drawn for a cell in sight: floor first, then feature, item and
/// character, so that the character ends on top.
pub open spec fn visible_cells(layers: TileLayers) -> Seq<RenderCell> {
    layer_cells(layers.floor) + layer_cells(layers.feature) + layer_cells(layers.item)
        + layer_cells(layers.character)
}

/// The characters to draw for a cell that is in sight.
pub fn render_visible(cell: &VisibilityCell) -> (cells: Vec<RenderCell>)
    ensures
        cells@ == visible_cells(cell.tile_layers),
{
    let layers = cell.tile_layers();
    let mut cells: Vec<RenderCell> = Vec::new();
    push_layer(&mut cells, layers.floor);
    push_layer(&mut cells, layers.feature);
    push_layer(&mut cells, layers.item);
    push_layer(&mut cells, layers.character);
    cells
}

fn push_layer(cells: &mut Vec<RenderCell>, occupant: Option<EntityTile>)
    ensures
        final(cells)@ == old(cells)@ + layer_cells(occupant),
{
    match occupant {
        Some(seen) => {
            cells.push(
                RenderCell {
                    character: tile_character(seen.tile),
                    foreground: Rgb24::new_grey(VISIBLE_GREY),
                },
            );
            assert(cells@ =~= old(cells)@ + layer_cells(occupant));
        },
        None => {
            assert(cells@ =~= old(cells)@ + layer_cells(occupant));
        },
    }
}

/// The character that a remembered tile is drawn as: a wall as a shaded
/// block, and everything else as it is drawn in sight.
pub open spec fn remembered_character_spec(tile: Tile) -> char {
    match tile {
        Tile::Wall => REMEMBERED_WALL,
        _ => tile_character_spec(tile),
    }
}

#[verifier::when_used_as_spec(remembered_character_spec)]
pub fn remembered_character(tile: Tile) -> (character: char)
    ensures
        character == remembered_character_spec(tile),
{
    match tile {
        Tile::Wall => REMEMBERED_WALL,
        _ => tile_character(tile),
    }
}

/// Who is on top in a cell: the character, or else the item, the feature
/// or the floor, whichever comes first; and nobody in an empty cell.
pub open spec fn top_layer_spec(layers: TileLayers) -> Option<EntityTile> {
    if layers.character.is_some() {
        layers.character
    } else if layers.item.is_some() {
        layers.item
    } else if layers.feature.is_some() {
        layers.feature
    } else {
        layers.floor
    }
}

#[verifier::when_used_as_spec(top_layer_spec)]
pub fn top_layer(layers: TileLayers) -> (top: Option<EntityTile>)
    ensures
        top == top_layer_spec(layers),
{
    if layers.character.is_some() {
        layers.character
    } else if layers.item.is_some() {
        layers.item
    } else if layers.feature.is_some() {
        layers.feature
    } else {
        layers.floor
    }
}

/// Whether a wall stands in the cell: its feature is one.
pub open spec fn holds_wall_spec(layers: TileLayers) -> bool {
    match layers.feature {
        Some(seen) => seen.tile == Tile::Wall,
        None => false,
    }
}

#[verifier::when_used_as_spec(holds_wall_spec)]
pub fn holds_wall(layers: TileLayers) -> (wall: bool)
    ensures
        wall == holds_wall_spec(layers),
{
    match layers.feature {
        Some(seen) => match seen.tile {
            Tile::Wall => true,
            _ => false,
        },
        None => false,
    }
}

/// The shaded block that a remembered wall is drawn as, in dim grey.
pub open spec fn remembered_wall() -> RenderCell {
    RenderCell {
        character: REMEMBERED_WALL,
        foreground: Rgb24 { r: REMEMBERED_GREY, g: REMEMBERED_GREY, b: REMEMBERED_GREY },
    }
}

/// What is drawn for a cell that is only remembered, in dim grey: the
/// shaded block wherever a wall was seen as the feature of the cell,
/// whoever else was seen there; else the tile that was on top when the
/// cell was last seen; and nothing for a cell that was empty then.
pub open spec fn remembered_cell(layers: TileLayers) -> Option<RenderCell> {
    if holds_wall_spec(layers) {
        Some(remembered_wall())
    } else {
        match top_layer_spec(layers) {
            Some(seen) => Some(
                RenderCell {
                    character: remembered_character_spec(seen.tile),
                    foreground: Rgb24 {
                        r: REMEMBERED_GREY,
                        g: REMEMBERED_GREY,
                        b: REMEMBERED_GREY,
                    },
                },
            ),
            None => None,
        }
    }
}

/// The character to draw for a cell that is remembered and not in sight. It
/// comes from the record alone. A remembered wall is always drawn as the
/// shaded block, whatever else the record holds.
pub fn render_remembered(cell: &VisibilityCell) -> (drawn: Option<RenderCell>)
    ensures
        drawn == remembered_cell(cell.tile_layers),
        holds_wall_spec(cell.tile_layers) ==> drawn == Some(remembered_wall()),
{
    let layers = cell.tile_layers();
    if holds_wall(layers) {
        Some(
            RenderCell { character: REMEMBERED_WALL, foreground: Rgb24::new_grey(REMEMBERED_GREY) },
        )
    } else {
        match top_layer(layers) {
            Some(seen) => Some(
                RenderCell {
                    character: remembered_character(seen.tile),
                    foreground: Rgb24::new_grey(REMEMBERED_GREY),
                },
            ),
            None => None,
        }
    }
}

/// Whether `drawing` is what belongs on a cell with record `cell` when the
/// counter stands at `count` and the last look found `light_colour` on the
/// cell: the cell's occupants where it is in sight, under its light or, in
/// the dark, as they are; what is remembered of it where it was seen
/// before; and nothing where it was never seen.
pub open spec fn draws(
    drawing: CellDrawing,
    cell: VisibilityCell,
    count: u64,
    light_colour: Option<Rgb24>,
) -> bool {
    match cell.visibility_spec(count, light_colour) {
        CellVisibility::CurrentlyVisibleWithLightColour(light) => match drawing {
            CellDrawing::Visible { cells, light_colour } => cells@ == visible_cells(
                cell.tile_layers,
            ) && light_colour == light,
            _ => false,
        },
        CellVisibility::PreviouslyVisible => match remembered_cell(cell.tile_layers) {
            Some(drawn) => drawing == CellDrawing::Remembered(drawn),
            None => drawing == CellDrawing::Nothing,
        },
        CellVisibility::NeverVisible => drawing == CellDrawing::Nothing,
    }
}

/// What to draw on a cell with record `cell` when the counter stands at
/// `count` and the last look found `light_colour` on the cell.
pub fn render_cell(cell: &VisibilityCell, count: u64, light_colour: Option<Rgb24>) -> (drawing:
    CellDrawing)
    ensures
        draws(drawing, *cell, count, light_colour),
{
    match cell.visibility(count, light_colour) {
        CellVisibility::CurrentlyVisibleWithLightColour(light_colour) => {
            CellDrawing::Visible { cells: render_visible(cell), light_colour }
        },
        CellVisibility::PreviouslyVisible => match render_remembered(cell) {
            Some(drawn) => CellDrawing::Remembered(drawn),
            None => CellDrawing::Nothing,
        },
        CellVisibility::NeverVisible => CellDrawing::Nothing,
    }
}

/// What to draw on every cell of the map, row by row from the top-left
/// corner.
pub fn render_game_with_visibility(game: &Game) -> (frame: Vec<(Coordinate, CellDrawing)>)
    requires
        game.wf(),
    ensures
        frame@.len() == game.visibility_grid.cells.size.count_spec(),
        forall|i: int|
            0 <= i < frame@.len() ==> (#[trigger] frame@[i]).0
                == game.visibility_grid.cells.size.coord_spec(i) && draws(
                frame@[i].1,
                game.visibility_grid.cells.cells@[i],
                game.visibility_grid.count,
                game.visibility_grid.light.cells@[i],
            ),
{
    let visibility_grid = game.visibility_grid();
    let vis_count = visibility_grid.count();
    let size = visibility_grid.size();
    let total = size.count();
    let mut frame: Vec<(Coordinate, CellDrawing)> = Vec::new();
    let mut i: usize = 0;
    while i < total
        invariant
            i <= total,
            game.wf(),
            *visibility_grid == game.visibility_grid,
            size == game.visibility_grid.cells.size,
            total == size.count_spec(),
            vis_count == game.visibility_grid.count,
            frame@.len() == i,
            forall|k: int|
                0 <= k < i ==> (#[trigger] frame@[k]).0 == size.coord_spec(k) && draws(
                    frame@[k].1,
                    game.visibility_grid.cells.cells@[k],
                    game.visibility_grid.count,
                    game.visibility_grid.light.cells@[k],
                ),
        decreases total - i,
    {
        let coord = size.coord_of(i);
        let drawing = render_cell(
            &visibility_grid.cells.cells[i],
            vis_count,
            visibility_grid.light.cells[i],
        );
        frame.push((coord, drawing));
        i = i + 1;
    }
    frame
}

/// The look of a colour under a light.
#[derive(Debug, Clone, Copy, PartialEq, Eq, Structural)]
pub struct LightBlend {
    pub light_colour: Rgb24,
}

impl LightBlend {
    pub open spec fn tint_spec(&self, colour: Rgb24) -> Rgb24 {
        colour.normalised_mul_spec(self.light_colour).saturating_add_spec(
            self.light_colour.saturating_scalar_mul_div_spec(1, 10),
        )
    }

    /// `colour` as it looks under the light: multiplied by the light, and
    /// brightened by a tenth of the light.
    #[verifier::when_used_as_spec(tint_spec)]
    pub fn tint(&self, colour: Rgb24) -> (tinted: Rgb24)
        ensures
            tinted == self.tint_spec(colour),
    {
        colour.normalised_mul(self.light_colour).saturating_add(
            self.light_colour.saturating_scalar_mul_div(1, 10),
        )
    }
}

} // verus!
