//! The map as it is drawn in text, and the world made from it.
//!
//! The text is cut into rows at every line feed, and empty rows are dropped.
//! Row `y` is the row of cells with that `y`, and the character at place `x`
//! of a row marks the cell `(x, y)`:
//!
//! ```text
//! .  floor            #  wall
//! R  floor, red light G  floor, green light
//! @  floor, and the player on it
//! ```
//!
//! Control characters mark nothing. The map is as wide as the first row is
//! long in UTF-8 and as high as there are rows.

use vstd::prelude::*;
use crate::colour::Rgb24;
use crate::components::{EntityData, Tile};
use crate::coord::{Circle, Coordinate, GridSize, MAX_SIDE};
use crate::grid::Grid;
use crate::lighting::{Light, Rational};
use crate::spatial::{Layer, Layers, Location};
use crate::world::World;

verus! {

/// What the text makes of one cell.
#[derive(Debug, Clone, Copy, PartialEq, Eq, Structural)]
pub enum Marking {
    /// Nothing at all, not even a floor.
    Nothing,
    Floor,
    RedLight,
    GreenLight,
    Wall,
    Player,
}

/// Why a text is not a map.
#[derive(Debug, Clone, Copy, PartialEq, Eq, Structural)]
pub enum TerrainError {
    /// The text has no row.
    Empty,
    /// The map would be wider or higher than [`MAX_SIDE`].
    TooLarge,
    /// A character that marks nothing and is no control character.
    UnexpectedChar(char),
    /// A mark to the right of the map.
    OutOfBounds,
    /// A second player.
    SecondPlayer,
    /// No player.
    NoPlayer,
}

/// Whether `c` is a control character: one of U+0000 to U+001F or U+007F to
/// U+009F.
pub open spec fn is_control_spec(c: char) -> bool {
    (c as u32) <= 0x1f || (0x7f <= (c as u32) && (c as u32) <= 0x9f)
}

#[verifier::when_used_as_spec(is_control_spec)]
pub fn is_control(c: char) -> (control: bool)
    ensures
        control == is_control_spec(c),
{
    let code: u32 = c as u32;
    code <= 0x1f || (0x7f <= code && code <= 0x9f)
}

/// The number of bytes that `c` takes in UTF-8.
pub open spec fn utf8_len_spec(c: char) -> nat {
    if (c as u32) < 0x80 {
        1
    } else if (c as u32) < 0x800 {
        2
    } else if (c as u32) < 0x1_0000 {
        3
    } else {
        4
    }
}

fn utf8_len(c: char) -> (bytes: u16)
    ensures
        bytes == utf8_len_spec(c),
{
    let code: u32 = c as u32;
    if code < 0x80 {
        1
    } else if code < 0x800 {
        2
    } else if code < 0x1_0000 {
        3
    } else {
        4
    }
}

/// The number of bytes that `row` takes in UTF-8.
pub open spec fn utf8_len_of(row: Seq<char>) -> nat
    decreases row.len(),
{
    if row.len() == 0 {
        0
    } else {
        utf8_len_of(row.drop_last()) + utf8_len_spec(row.last())
    }
}

/// What `c` marks, or `None` for a character that marks nothing.
pub open spec fn marking_of_spec(c: char) -> Option<Marking> {
    if c == '.' {
        Some(Marking::Floor)
    } else if c == 'R' {
        Some(Marking::RedLight)
    } else if c == 'G' {
        Some(Marking::GreenLight)
    } else if c == '#' {
        Some(Marking::Wall)
    } else if c == '@' {
        Some(Marking::Player)
    } else {
        None
    }
}

#[verifier::when_used_as_spec(marking_of_spec)]
pub fn marking_of(c: char) -> (marking: Option<Marking>)
    ensures
        marking == marking_of_spec(c),
{
    if c == '.' {
        Some(Marking::Floor)
    } else if c == 'R' {
        Some(Marking::RedLight)
    } else if c == 'G' {
        Some(Marking::GreenLight)
    } else if c == '#' {
        Some(Marking::Wall)
    } else if c == '@' {
        Some(Marking::Player)
    } else {
        None
    }
}

/// The text read up to its end: the rows that are complete and not empty,
/// and the row that is still open.
pub open spec fn split_rows(text: Seq<char>) -> (Seq<Seq<char>>, Seq<char>)
    decreases text.len(),
{
    if text.len() == 0 {
        (Seq::empty(), Seq::empty())
    } else {
        let (done, open) = split_rows(text.drop_last());
        if text.last() == '\n' {
            (
                if open.len() > 0 {
                    done.push(open)
                } else {
                    done
                },
                Seq::empty(),
            )
        } else {
            (done, open.push(text.last()))
        }
    }
}

/// The rows of `text`: what stands between its line feeds, without the empty
/// rows.
pub open spec fn rows_of(text: Seq<char>) -> Seq<Seq<char>> {
    let (done, open) = split_rows(text);
    if open.len() > 0 {
        done.push(open)
    } else {
        done
    }
}

/// Place `x` of row `y` exists.
pub open spec fn in_text(rows: Seq<Seq<char>>, y: int, x: int) -> bool {
    0 <= y < rows.len() && 0 <= x < rows[y].len()
}

/// Place `(y2, x2)` is read before place `(y, x)`.
pub open spec fn reads_before(y2: int, x2: int, y: int, x: int) -> bool {
    y2 < y || (y2 == y && x2 < x)
}

/// A player is marked at a place read before `(y, x)`.
pub open spec fn player_before(rows: Seq<Seq<char>>, y: int, x: int) -> bool {
    exists|y2: int, x2: int|
        #[trigger] in_text(rows, y2, x2) && reads_before(y2, x2, y, x) && rows[y2][x2] == '@'
}

/// What is wrong with the character at place `x` of row `y` on a map of the
/// given width, if anything is.
pub open spec fn fault_at(rows: Seq<Seq<char>>, width: nat, y: int, x: int) -> Option<
    TerrainError,
> {
    let c = rows[y][x];
    if is_control_spec(c) {
        None
    } else if marking_of_spec(c).is_none() {
        Some(TerrainError::UnexpectedChar(c))
    } else if x >= width {
        Some(TerrainError::OutOfBounds)
    } else if c == '@' && player_before(rows, y, x) {
        Some(TerrainError::SecondPlayer)
    } else {
        None
    }
}

/// Nothing is wrong with any character read before place `(y, x)`.
pub open spec fn clean_before(rows: Seq<Seq<char>>, width: nat, y: int, x: int) -> bool {
    forall|y2: int, x2: int|
        #[trigger] in_text(rows, y2, x2) && reads_before(y2, x2, y, x) ==> fault_at(
            rows,
            width,
            y2,
            x2,
        ).is_none()
}

/// The rows fit a map: there is one, and neither the first row nor the
/// number of rows is longer than [`MAX_SIDE`].
pub open spec fn fits(rows: Seq<Seq<char>>) -> bool {
    rows.len() > 0 && utf8_len_of(rows[0]) <= MAX_SIDE && rows.len() <= MAX_SIDE
}

/// The size of the map that the rows draw.
pub open spec fn size_of(rows: Seq<Seq<char>>) -> GridSize {
    GridSize { width: utf8_len_of(rows[0]) as u16, height: rows.len() as u16 }
}

/// The text is a map: its rows fit, nothing is wrong with any character, and
/// a player is marked.
pub open spec fn parses(text: Seq<char>) -> bool {
    let rows = rows_of(text);
    fits(rows) && clean_before(rows, utf8_len_of(rows[0]), rows.len() as int, 0) && player_before(
        rows,
        rows.len() as int,
        0,
    )
}

/// The text is no map, and `error` says why: the first thing that is wrong
/// with it, reading the rows from the top and each row from the left.
pub open spec fn fails_with(text: Seq<char>, error: TerrainError) -> bool {
    let rows = rows_of(text);
    if rows.len() == 0 {
        error == TerrainError::Empty
    } else if !fits(rows) {
        error == TerrainError::TooLarge
    } else if clean_before(rows, utf8_len_of(rows[0]), rows.len() as int, 0) {
        error == TerrainError::NoPlayer && !player_before(rows, rows.len() as int, 0)
    } else {
        exists|y: int, x: int|
            #[trigger] in_text(rows, y, x) && clean_before(rows, utf8_len_of(rows[0]), y, x)
                && fault_at(rows, utf8_len_of(rows[0]), y, x) == Some(error)
    }
}

/// What the rows mark at `coord`.
pub open spec fn marking_at(rows: Seq<Seq<char>>, coord: Coordinate) -> Marking {
    if in_text(rows, coord.y as int, coord.x as int) && !is_control_spec(
        rows[coord.y as int][coord.x as int],
    ) {
        match marking_of_spec(rows[coord.y as int][coord.x as int]) {
            Some(marking) => marking,
            None => Marking::Nothing,
        }
    } else {
        Marking::Nothing
    }
}

/// A text that is a map fails with nothing, and a text fails with one error
/// at most.
pub proof fn lemma_one_outcome(text: Seq<char>, first: TerrainError, second: TerrainError)
    ensures
        parses(text) ==> !fails_with(text, first),
        fails_with(text, first) && fails_with(text, second) ==> first == second,
{
    let rows = rows_of(text);
    if rows.len() > 0 && fits(rows) {
        let width = utf8_len_of(rows[0]);
        if !clean_before(rows, width, rows.len() as int, 0) {
            if fails_with(text, first) && fails_with(text, second) {
                let (y1, x1) = choose|y: int, x: int|
                    #[trigger] in_text(rows, y, x) && clean_before(rows, width, y, x) && fault_at(
                        rows,
                        width,
                        y,
                        x,
                    ) == Some(first);
                let (y2, x2) = choose|y: int, x: int|
                    #[trigger] in_text(rows, y, x) && clean_before(rows, width, y, x) && fault_at(
                        rows,
                        width,
                        y,
                        x,
                    ) == Some(second);
                assert(in_text(rows, y1, x1) && in_text(rows, y2, x2));
                assert(!reads_before(y1, x1, y2, x2));
                assert(!reads_before(y2, x2, y1, x1));
            }
        }
    }
}

/// A map as read from text: what each cell is marked as, and where the
/// player stands.
#[derive(Debug, Clone, PartialEq)]
pub struct TerrainPlan {
    pub cells: Grid<Marking>,
    pub player: Coordinate,
}

impl TerrainPlan {
    /// The player stands on the map, on the one cell that is marked so.
    pub open spec fn wf(&self) -> bool {
        &&& self.cells.wf()
        &&& self.cells.size.contains(self.player)
        &&& forall|coord: Coordinate|
            self.cells.size.contains(coord) ==> (#[trigger] self.cells.at(coord) == Marking::Player
                <==> coord == self.player)
    }

    /// The plan is what `text` draws.
    pub open spec fn drawn_by(&self, text: Seq<char>) -> bool {
        &&& self.cells.size == size_of(rows_of(text))
        &&& forall|coord: Coordinate|
            self.cells.size.contains(coord) ==> #[trigger] self.cells.at(coord) == marking_at(
                rows_of(text),
                coord,
            )
    }
}

/// Where the rows of `text` begin and end: row `k` runs from `bounds[k].0`
/// up to, not including, `bounds[k].1`.
spec fn bounds_cut(text: Seq<char>, rows: Seq<Seq<char>>, bounds: Seq<(usize, usize)>) -> bool {
    &&& bounds.len() == rows.len()
    &&& forall|k: int|
        0 <= k < bounds.len() ==> (#[trigger] bounds[k]).0 < bounds[k].1 <= text.len() && rows[k]
            == text.subrange(bounds[k].0 as int, bounds[k].1 as int)
}

fn find_rows(text: &[char]) -> (bounds: Vec<(usize, usize)>)
    ensures
        bounds_cut(text@, rows_of(text@), bounds@),
{
    let mut bounds: Vec<(usize, usize)> = Vec::new();
    let mut start: usize = 0;
    let mut i: usize = 0;
    assert(text@.take(0) =~= Seq::<char>::empty());
    assert(text@.subrange(0, 0) =~= Seq::<char>::empty());
    while i < text.len()
        invariant
            start <= i <= text@.len(),
            split_rows(text@.take(i as int)).1 == text@.subrange(start as int, i as int),
            bounds_cut(text@, split_rows(text@.take(i as int)).0, bounds@),
        decreases text@.len() - i,
    {
        assert(text@.take(i + 1).drop_last() =~= text@.take(i as int));
        assert(text@.take(i + 1).last() == text@[i as int]);
        if text[i] == '\n' {
            if i > start {
                bounds.push((start, i));
            }
            start = i + 1;
            assert(text@.subrange(start as int, i + 1) =~= Seq::<char>::empty());
        } else {
            assert(text@.subrange(start as int, i + 1) =~= text@.subrange(
                start as int,
                i as int,
            ).push(text@[i as int]));
        }
        i = i + 1;
    }
    assert(text@.take(text@.len() as int) =~= text@);
    if i > start {
        bounds.push((start, i));
    }
    bounds
}

/// The width of the map: the length of `row` in UTF-8, or `None` where that
/// is more than [`MAX_SIDE`].
fn row_width(text: &[char], from: usize, to: usize) -> (width: Option<u16>)
    requires
        from <= to <= text@.len(),
    ensures
        match width {
            Some(bytes) => bytes == utf8_len_of(text@.subrange(from as int, to as int)) && bytes
                <= MAX_SIDE,
            None => utf8_len_of(text@.subrange(from as int, to as int)) > MAX_SIDE,
        },
{
    let ghost row = text@.subrange(from as int, to as int);
    let mut bytes: u16 = 0;
    let mut i: usize = from;
    assert(row.take(0) =~= Seq::<char>::empty());
    while i < to
        invariant
            from <= i <= to <= text@.len(),
            row == text@.subrange(from as int, to as int),
            bytes == utf8_len_of(row.take(i - from)),
            bytes <= MAX_SIDE,
        decreases to - i,
    {
        assert(row.take(i - from + 1).drop_last() =~= row.take(i - from));
        assert(row.take(i - from + 1).last() == text@[i as int]);
        bytes = bytes + utf8_len(text[i]);
        if bytes > MAX_SIDE {
            proof {
                lemma_utf8_len_grows(row, i - from + 1);
            }
            return None;
        }
        i = i + 1;
    }
    assert(row.take(to - from) =~= row);
    Some(bytes)
}

proof fn lemma_utf8_len_grows(row: Seq<char>, upto: int)
    requires
        0 <= upto <= row.len(),
    ensures
        utf8_len_of(row.take(upto)) <= utf8_len_of(row),
    decreases row.len(),
{
    if upto < row.len() {
        lemma_utf8_len_grows(row.drop_last(), upto);
        assert(row.drop_last().take(upto) =~= row.take(upto));
    } else {
        assert(row.take(upto) =~= row);
    }
}

/// Reads a map from `text`.
///
/// The text is read row by row from the top and each row from the left, and
/// the first thing wrong with it is the error. A text with nothing wrong
/// gives the plan of the map it draws.
pub fn parse_terrain(text: &[char]) -> (plan: Result<TerrainPlan, TerrainError>)
    ensures
        match plan {
            Ok(plan) => parses(text@) && plan.wf() && plan.drawn_by(text@),
            Err(error) => fails_with(text@, error),
        },
{
    let ghost rows = rows_of(text@);
    let bounds = find_rows(text);
    if bounds.len() == 0 {
        return Err(TerrainError::Empty);
    }
    let width = match row_width(text, bounds[0].0, bounds[0].1) {
        Some(width) => width,
        None => {
            return Err(TerrainError::TooLarge);
        },
    };
    if bounds.len() > MAX_SIDE as usize {
        return Err(TerrainError::TooLarge);
    }
    let height: u16 = bounds.len() as u16;
    let size = GridSize { width, height };
    let mut cells: Grid<Marking> = Grid::filled(size, Marking::Nothing);
    let mut player: Option<Coordinate> = None;
    let mut y: usize = 0;
    while y < bounds.len()
        invariant
            y <= bounds@.len(),
            rows == rows_of(text@),
            bounds_cut(text@, rows, bounds@),
            fits(rows),
            size == size_of(rows),
            size.wf(),
            size.width == width,
            cells.wf(),
            cells.size == size,
            clean_before(rows, width as nat, y as int, 0),
            match player {
                Some(at) => in_text(rows, at.y as int, at.x as int) && reads_before(
                    at.y as int,
                    at.x as int,
                    y as int,
                    0,
                ) && rows[at.y as int][at.x as int] == '@' && size.contains(at),
                None => !player_before(rows, y as int, 0),
            },
            forall|coord: Coordinate|
                size.contains(coord) ==> #[trigger] cells.at(coord) == if reads_before(
                    coord.y as int,
                    coord.x as int,
                    y as int,
                    0,
                ) {
                    marking_at(rows, coord)
                } else {
                    Marking::Nothing
                },
        decreases bounds@.len() - y,
    {
        let from = bounds[y].0;
        let to = bounds[y].1;
        let mut x: usize = 0;
        while x < to - from
            invariant
                y < bounds@.len(),
                x <= to - from,
                from == bounds@[y as int].0,
                to == bounds@[y as int].1,
                rows == rows_of(text@),
                bounds_cut(text@, rows, bounds@),
                fits(rows),
                size == size_of(rows),
                size.wf(),
                size.width == width,
                cells.wf(),
                cells.size == size,
                clean_before(rows, width as nat, y as int, x as int),
                match player {
                    Some(at) => in_text(rows, at.y as int, at.x as int) && reads_before(
                        at.y as int,
                        at.x as int,
                        y as int,
                        x as int,
                    ) && rows[at.y as int][at.x as int] == '@' && size.contains(at),
                    None => !player_before(rows, y as int, x as int),
                },
                forall|coord: Coordinate|
                    size.contains(coord) ==> #[trigger] cells.at(coord) == if reads_before(
                        coord.y as int,
                        coord.x as int,
                        y as int,
                        x as int,
                    ) {
                        marking_at(rows, coord)
                    } else {
                        Marking::Nothing
                    },
            decreases to - from - x,
        {
            let c = text[from + x];
            assert(rows[y as int][x as int] == c);
            assert(in_text(rows, y as int, x as int));
            proof {
                if player.is_some() {
                    let at = player.unwrap();
                    assert(in_text(rows, at.y as int, at.x as int));
                }
            }
            if !is_control(c) {
                match marking_of(c) {
                    None => {
                        return Err(TerrainError::UnexpectedChar(c));
                    },
                    Some(marking) => {
                        if x >= width as usize {
                            return Err(TerrainError::OutOfBounds);
                        }
                        let coord = Coordinate { x: x as i32, y: y as i32 };
                        if c == '@' {
                            if player.is_some() {
                                return Err(TerrainError::SecondPlayer);
                            }
                            player = Some(coord);
                        }
                        cells.set(coord, marking);
                    },
                }
            }
            proof {
                assert(fault_at(rows, width as nat, y as int, x as int).is_none());
                assert forall|y2: int, x2: int|
                    #[trigger] in_text(rows, y2, x2) && reads_before(
                        y2,
                        x2,
                        y as int,
                        x + 1,
                    ) implies fault_at(rows, width as nat, y2, x2).is_none() by {
                    if !(y2 == y && x2 == x) {
                        assert(reads_before(y2, x2, y as int, x as int));
                    }
                }
                if player.is_none() {
                    assert forall|y2: int, x2: int|
                        #[trigger] in_text(rows, y2, x2) && reads_before(
                            y2,
                            x2,
                            y as int,
                            x + 1,
                        ) implies rows[y2][x2] != '@' by {
                        if !(y2 == y && x2 == x) {
                            assert(reads_before(y2, x2, y as int, x as int));
                        }
                    }
                }
            }
            x = x + 1;
        }
        proof {
            assert forall|y2: int, x2: int|
                #[trigger] in_text(rows, y2, x2) && reads_before(y2, x2, y + 1, 0) implies fault_at(
                rows,
                width as nat,
                y2,
                x2,
            ).is_none() by {
                assert(reads_before(y2, x2, y as int, x as int));
            }
            if player.is_none() {
                assert forall|y2: int, x2: int|
                    #[trigger] in_text(rows, y2, x2) && reads_before(
                        y2,
                        x2,
                        y + 1,
                        0,
                    ) implies rows[y2][x2] != '@' by {
                    assert(reads_before(y2, x2, y as int, x as int));
                }
            }
            assert forall|coord: Coordinate| size.contains(coord) implies #[trigger] cells.at(coord)
                == if reads_before(coord.y as int, coord.x as int, y + 1, 0) {
                marking_at(rows, coord)
            } else {
                Marking::Nothing
            } by {
                if coord.y == y && coord.x >= x {
                    assert(!in_text(rows, coord.y as int, coord.x as int));
                }
            }
        }
        y = y + 1;
    }
    match player {
        None => Err(TerrainError::NoPlayer),
        Some(at) => {
            let plan = TerrainPlan { cells, player: at };
            proof {
                assert(in_text(rows, at.y as int, at.x as int));
                assert forall|coord: Coordinate| size.contains(coord) implies (#[trigger] cells.at(
                    coord,
                ) == Marking::Player <==> coord == at) by {
                    if coord != at && cells.at(coord) == Marking::Player {
                        let (cy, cx) = (coord.y as int, coord.x as int);
                        assert(in_text(rows, cy, cx));
                        assert(rows[cy][cx] == '@');
                        if reads_before(cy, cx, at.y as int, at.x as int) {
                            assert(player_before(rows, at.y as int, at.x as int));
                            assert(fault_at(rows, width as nat, at.y as int, at.x as int).is_none());
                        } else {
                            assert(reads_before(at.y as int, at.x as int, cy, cx));
                            assert(player_before(rows, cy, cx));
                            assert(fault_at(rows, width as nat, cy, cx).is_none());
                        }
                    }
                }
            }
            Ok(plan)
        },
    }
}

/// What a floor is made of.
pub open spec fn floor_parts() -> EntityData {
    EntityData { tile: Some(Tile::Floor), opacity: None, solid: None, light: None }
}

/// What a wall is made of.
pub open spec fn wall_parts() -> EntityData {
    EntityData { tile: Some(Tile::Wall), opacity: Some(255), solid: Some(()), light: None }
}

/// The light of a lamp of the given colour.
pub open spec fn lamp_light(colour: Rgb24) -> Light {
    Light {
        colour,
        vision_distance: Circle { distance_squared: 200 },
        diminish: Rational { numerator: 1, denominator: 10 },
    }
}

/// What the player is made of.
pub open spec fn player_parts() -> EntityData {
    EntityData {
        tile: Some(Tile::Player),
        opacity: None,
        solid: None,
        light: Some(
            Light {
                colour: Rgb24 { r: 63, g: 63, b: 63 },
                vision_distance: Circle { distance_squared: 90 },
                diminish: Rational { numerator: 1, denominator: 4 },
            },
        ),
    }
}

/// The light that stands on a cell with the given marking, if one does.
pub open spec fn lamp_of(marking: Marking) -> Option<Light> {
    match marking {
        Marking::RedLight => Some(lamp_light(Rgb24 { r: 255, g: 0, b: 0 })),
        Marking::GreenLight => Some(lamp_light(Rgb24 { r: 0, g: 255, b: 0 })),
        Marking::Player => player_parts().light,
        _ => None,
    }
}

/// `occupant` is an entity of `world` made of `parts`.
pub open spec fn holds(
    world: World,
    occupant: Option<gridbugs::entity_table::Entity>,
    parts: EntityData,
) -> bool {
    match occupant {
        Some(entity) => world.data().contains_key(entity) && world.data()[entity] == parts,
        None => false,
    }
}

/// The cell at `coord` of `world` holds what `marking` asks for: a floor
/// under everything but a wall and nothing, a wall as the feature of a wall,
/// `player` as the character of the player's cell, and nothing else.
pub open spec fn cell_built(
    world: World,
    marking: Marking,
    coord: Coordinate,
    player: Option<gridbugs::entity_table::Entity>,
) -> bool {
    let layers = world.layers()[coord];
    &&& layers.item.is_none()
    &&& match marking {
        Marking::Nothing | Marking::Wall => layers.floor.is_none(),
        _ => holds(world, layers.floor, floor_parts()),
    }
    &&& match marking {
        Marking::Wall => holds(world, layers.feature, wall_parts()),
        _ => layers.feature.is_none(),
    }
    &&& match marking {
        Marking::Player => player.is_some() && layers.character == player && holds(
            world,
            layers.character,
            player_parts(),
        ),
        _ => layers.character.is_none(),
    }
}

/// The lights of `world` are those that `cells` asks for, as far as the
/// cells with a place below `upto` go: every light stands on such a cell
/// and is the light of its marking, and every such cell with a light in its
/// marking has exactly one.
pub open spec fn lights_built(world: World, cells: Grid<Marking>, upto: int) -> bool {
    &&& forall|entity: gridbugs::entity_table::Entity| #[trigger]
        world.is_placed_light(entity) ==> cells.size.contains(world.locations()[entity].coord)
            && cells.size.index_spec(world.locations()[entity].coord) < upto && lamp_of(
            cells.at(world.locations()[entity].coord),
        ) == world.data()[entity].light
    &&& forall|coord: Coordinate|
        cells.size.contains(coord) && cells.size.index_spec(coord) < upto && (#[trigger] lamp_of(
            cells.at(coord),
        )).is_some() ==> exists|entity: gridbugs::entity_table::Entity| #[trigger]
            world.is_placed_light(entity) && world.locations()[entity].coord == coord
    &&& forall|a: gridbugs::entity_table::Entity, b: gridbugs::entity_table::Entity|
        #[trigger] world.is_placed_light(a) && #[trigger] world.is_placed_light(b)
            && world.locations()[a].coord == world.locations()[b].coord ==> a == b
}

/// `after` is `before` with the cell at `coord` built for `marking`: all
/// that was there is there still, and everything new is in that cell.
pub open spec fn cell_added(
    before: World,
    after: World,
    marking: Marking,
    coord: Coordinate,
    player: Option<gridbugs::entity_table::Entity>,
) -> bool {
    &&& after.size_spec() == before.size_spec()
    &&& before.issued() <= after.issued() <= before.issued() + 2
    &&& forall|other: Coordinate| other != coord ==> #[trigger] after.layers()[other] == before.layers()[other]
    &&& forall|entity: gridbugs::entity_table::Entity| #[trigger]
        before.locations().contains_key(entity) ==> after.locations().contains_key(entity)
            && after.locations()[entity] == before.locations()[entity]
    &&& forall|entity: gridbugs::entity_table::Entity| #[trigger]
        before.data().contains_key(entity) ==> after.data().contains_key(entity)
            && after.data()[entity] == before.data()[entity]
    &&& forall|entity: gridbugs::entity_table::Entity| #[trigger]
        after.locations().contains_key(entity) && !before.locations().contains_key(entity)
            ==> after.locations()[entity].coord == coord && !before.live().contains(entity)
    &&& forall|entity: gridbugs::entity_table::Entity| #[trigger]
        after.data().contains_key(entity) && !before.data().contains_key(entity)
            ==> !before.live().contains(entity) && (after.data()[entity].light.is_some()
            ==> after.data()[entity].light == lamp_of(marking))
    &&& forall|a: gridbugs::entity_table::Entity, b: gridbugs::entity_table::Entity|
        #[trigger] after.is_placed_light(a) && #[trigger] after.is_placed_light(b)
            && !before.live().contains(a) && !before.live().contains(b) ==> a == b
    &&& lamp_of(marking).is_some() ==> exists|entity: gridbugs::entity_table::Entity| #[trigger]
        after.is_placed_light(entity) && after.locations()[entity].coord == coord
    &&& cell_built(after, marking, coord, player)
}

/// Builds the cell at `coord`, which is empty, for `marking`. Returns the
/// player where the cell is the player's.
fn build_cell(world: &mut World, marking: Marking, coord: Coordinate) -> (player: Option<
    gridbugs::entity_table::Entity,
>)
    requires
        old(world).wf(),
        old(world).issued() + 2 <= u32::MAX,
        old(world).size_spec().contains(coord),
        old(world).layers()[coord] == Layers::empty_spec(),
    ensures
        final(world).wf(),
        cell_added(*old(world), *final(world), marking, coord, player),
        player.is_some() <==> marking == Marking::Player,
{
    match marking {
        Marking::Nothing => None,
        Marking::Floor => {
            world.spawn_floor(coord);
            None
        },
        Marking::RedLight => {
            world.spawn_floor(coord);
            let ghost floored = *world;
            let lamp = world.spawn_light(coord, Rgb24::new(255, 0, 0));
            proof {
                assert(world.is_placed_light(lamp));
                assert(!floored.data().contains_key(lamp));
            }
            None
        },
        Marking::GreenLight => {
            world.spawn_floor(coord);
            let ghost floored = *world;
            let lamp = world.spawn_light(coord, Rgb24::new(0, 255, 0));
            proof {
                assert(world.is_placed_light(lamp));
                assert(!floored.data().contains_key(lamp));
            }
            None
        },
        Marking::Wall => {
            world.spawn_wall(coord);
            None
        },
        Marking::Player => {
            world.spawn_floor(coord);
            let ghost floored = *world;
            let player = world.insert_entity_data(
                Location { coord, layer: Some(Layer::Character) },
                World::make_player(),
            );
            proof {
                assert(world.is_placed_light(player));
                assert(!floored.data().contains_key(player));
            }
            Some(player)
        },
    }
}

/// A world together with the entity that the player steers.
pub struct Terrain {
    pub world: World,
    pub player_entity: gridbugs::entity_table::Entity,
}

impl Terrain {
    /// The world hangs together and the player is somewhere in it.
    pub open spec fn wf(&self) -> bool {
        self.world.wf() && self.world.locations().contains_key(self.player_entity)
    }

    /// The world is the one that `cells` asks for: it has that size, every
    /// cell holds what its marking asks for, and the lights are those of
    /// the markings.
    pub open spec fn built_from(&self, cells: Grid<Marking>) -> bool {
        &&& self.world.size_spec() == cells.size
        &&& forall|coord: Coordinate|
            cells.size.contains(coord) ==> cell_built(
                self.world,
                #[trigger] cells.at(coord),
                coord,
                Some(self.player_entity),
            )
        &&& lights_built(self.world, cells, cells.size.count_spec() as int)
    }

    /// The world that `plan` asks for.
    pub fn build(plan: &TerrainPlan) -> (terrain: Terrain)
        requires
            plan.wf(),
        ensures
            terrain.wf(),
            terrain.built_from(plan.cells),
    {
        let size = plan.cells.size();
        let count = size.count();
        let mut world = World::new(size);
        let mut player: Option<gridbugs::entity_table::Entity> = None;
        let mut i: usize = 0;
        proof {
            size.lemma_index_in_range(plan.player);
        }
        while i < count
            invariant
                i <= count,
                plan.wf(),
                size == plan.cells.size,
                count == size.count_spec(),
                world.wf(),
                world.size_spec() == size,
                world.issued() <= 2 * i,
                forall|coord: Coordinate|
                    size.contains(coord) && size.index_spec(coord) >= i
                        ==> #[trigger] world.layers()[coord] == Layers::empty_spec(),
                forall|entity: gridbugs::entity_table::Entity| #[trigger]
                    world.locations().contains_key(entity) ==> size.contains(
                        world.locations()[entity].coord,
                    ) && size.index_spec(world.locations()[entity].coord) < i,
                forall|coord: Coordinate|
                    size.contains(coord) && size.index_spec(coord) < i ==> cell_built(
                        world,
                        #[trigger] plan.cells.at(coord),
                        coord,
                        player,
                    ),
                player.is_some() <==> size.index_spec(plan.player) < i,
                match player {
                    Some(entity) => world.locations().contains_key(entity),
                    None => true,
                },
                lights_built(world, plan.cells, i as int),
            decreases count - i,
        {
            let coord = size.coord_of(i);
            let marking = plan.cells.cells[i];
            let ghost before = world;
            let ghost player_before = player;
            assert(count <= 16384 * 16384) by (nonlinear_arith)
                requires
                    count == size.width * size.height,
                    size.width <= 16384,
                    size.height <= 16384,
            ;
            let found = build_cell(&mut world, marking, coord);
            match found {
                Some(entity) => {
                    player = Some(entity);
                },
                None => {},
            }
            proof {
                assert(plan.cells.at(coord) == marking);
                size.lemma_index_in_range(plan.player);
                size.lemma_index_in_range(coord);
                assert(marking == Marking::Player <==> coord == plan.player);
                if found.is_some() {
                    assert(world.located_where_standing(coord, Layer::Character));
                }
                assert forall|other: Coordinate|
                    size.contains(other) && size.index_spec(other) >= i + 1
                        implies #[trigger] world.layers()[other] == Layers::empty_spec() by {
                    assert(other != coord);
                    assert(before.layers()[other] == Layers::empty_spec());
                }
                assert forall|entity: gridbugs::entity_table::Entity| #[trigger]
                    world.locations().contains_key(entity) implies size.contains(
                    world.locations()[entity].coord,
                ) && size.index_spec(world.locations()[entity].coord) < i + 1 by {
                    if before.locations().contains_key(entity) {
                    } else {
                    }
                }
                assert forall|other: Coordinate|
                    size.contains(other) && size.index_spec(other) < i + 1 implies cell_built(
                    world,
                    #[trigger] plan.cells.at(other),
                    other,
                    player,
                ) by {
                    if other != coord {
                        size.lemma_index_in_range(other);
                        assert(size.index_spec(other) < i);
                        assert(cell_built(before, plan.cells.at(other), other, player_before));
                        assert(world.layers()[other] == before.layers()[other]);
                        lemma_cell_stays_built(
                            before,
                            world,
                            marking,
                            coord,
                            found,
                            plan.cells.at(other),
                            other,
                            player_before,
                        );
                        if plan.cells.at(other) == Marking::Player {
                            assert(other == plan.player);
                        }
                    } else {
                        if marking != Marking::Player {
                            assert(coord != plan.player);
                        }
                    }
                }
                lemma_lights_stay_built(before, world, plan.cells, marking, coord, found, i as int);
            }
            i = i + 1;
        }
        match player {
            Some(player_entity) => {
                let terrain = Terrain { world, player_entity };
                proof {
                    assert forall|coord: Coordinate| size.contains(coord) implies cell_built(
                        terrain.world,
                        #[trigger] plan.cells.at(coord),
                        coord,
                        Some(terrain.player_entity),
                    ) by {
                        size.lemma_index_in_range(coord);
                    }
                }
                terrain
            },
            None => {
                proof {
                    size.lemma_index_in_range(plan.player);
                }
                // The player's cell has a place below the number of cells,
                // so the player was made.
                unreached()
            },
        }
    }

    /// Reads the map that `text` draws and builds its world.
    ///
    /// The text must be a map; [`parse_terrain`] tells whether it is, and
    /// what is wrong with it where it is not. The world has the size that
    /// the text draws, every cell holds what the text marks there, and only
    /// the walls are opaque.
    pub fn new(text: &[char]) -> (terrain: Terrain)
        requires
            parses(text@),
        ensures
            terrain.wf(),
            terrain.world.size_spec() == size_of(rows_of(text@)),
            forall|coord: Coordinate|
                size_of(rows_of(text@)).contains(coord) ==> cell_built(
                    terrain.world,
                    #[trigger] marking_at(rows_of(text@), coord),
                    coord,
                    Some(terrain.player_entity),
                ) && terrain.world.opacity_spec(coord) == if marking_at(rows_of(text@), coord)
                    == Marking::Wall {
                    255u8
                } else {
                    0u8
                },
            exists|plan: TerrainPlan|
                plan.wf() && plan.drawn_by(text@) && #[trigger] terrain.built_from(plan.cells),
    {
        match parse_terrain(text) {
            Ok(plan) => {
                let terrain = Terrain::build(&plan);
                proof {
                    assert forall|coord: Coordinate|
                        size_of(rows_of(text@)).contains(coord) implies cell_built(
                        terrain.world,
                        #[trigger] marking_at(rows_of(text@), coord),
                        coord,
                        Some(terrain.player_entity),
                    ) && terrain.world.opacity_spec(coord) == if marking_at(
                        rows_of(text@),
                        coord,
                    ) == Marking::Wall {
                        255u8
                    } else {
                        0u8
                    } by {
                        assert(plan.cells.at(coord) == marking_at(rows_of(text@), coord));
                        lemma_built_cell_reads(terrain, plan.cells, coord);
                    }
                }
                terrain
            },
            Err(error) => {
                proof {
                    lemma_one_outcome(text@, error, error);
                }
                // A text that is a map fails with nothing.
                unreached()
            },
        }
    }
}

/// What sight reads of a cell that was built: only a wall is opaque, and
/// fully so; there is a floor to see under everything but a wall and
/// nothing; a wall is seen as a wall and the player as the player.
pub proof fn lemma_built_cell_reads(terrain: Terrain, cells: Grid<Marking>, coord: Coordinate)
    requires
        terrain.built_from(cells),
        cells.size.contains(coord),
    ensures
        terrain.world.opacity_spec(coord) == if cells.at(coord) == Marking::Wall {
            255u8
        } else {
            0u8
        },
        match terrain.world.tile_layers_spec(coord).floor {
            Some(seen) => seen.tile == Tile::Floor && cells.at(coord) != Marking::Nothing
                && cells.at(coord) != Marking::Wall,
            None => cells.at(coord) == Marking::Nothing || cells.at(coord) == Marking::Wall,
        },
        match terrain.world.tile_layers_spec(coord).feature {
            Some(seen) => seen.tile == Tile::Wall && cells.at(coord) == Marking::Wall,
            None => cells.at(coord) != Marking::Wall,
        },
        match terrain.world.tile_layers_spec(coord).character {
            Some(seen) => seen.tile == Tile::Player && seen.entity == terrain.player_entity
                && cells.at(coord) == Marking::Player,
            None => cells.at(coord) != Marking::Player,
        },
        terrain.world.tile_layers_spec(coord).item.is_none(),
{
    assert(cell_built(terrain.world, cells.at(coord), coord, Some(terrain.player_entity)));
}

/// A cell that was built stays built when another cell is.
proof fn lemma_cell_stays_built(
    before: World,
    after: World,
    marking: Marking,
    coord: Coordinate,
    found: Option<gridbugs::entity_table::Entity>,
    other_marking: Marking,
    other: Coordinate,
    player: Option<gridbugs::entity_table::Entity>,
)
    requires
        cell_added(before, after, marking, coord, found),
        other != coord,
        cell_built(before, other_marking, other, player),
    ensures
        cell_built(after, other_marking, other, player),
{
    assert(after.layers()[other] == before.layers()[other]);
}

/// The lights stay right when one more cell is built.
proof fn lemma_lights_stay_built(
    before: World,
    after: World,
    cells: Grid<Marking>,
    marking: Marking,
    coord: Coordinate,
    found: Option<gridbugs::entity_table::Entity>,
    upto: int,
)
    requires
        before.wf(),
        after.wf(),
        cell_added(before, after, marking, coord, found),
        cells.size.contains(coord),
        cells.size.index_spec(coord) == upto,
        cells.at(coord) == marking,
        lights_built(before, cells, upto),
    ensures
        lights_built(after, cells, upto + 1),
{
    assert forall|entity: gridbugs::entity_table::Entity| #[trigger]
        after.is_placed_light(entity) implies cells.size.contains(
        after.locations()[entity].coord,
    ) && cells.size.index_spec(after.locations()[entity].coord) < upto + 1 && lamp_of(
        cells.at(after.locations()[entity].coord),
    ) == after.data()[entity].light by {
        if before.data().contains_key(entity) {
            assert(before.live().contains(entity));
            if before.locations().contains_key(entity) {
                assert(before.is_placed_light(entity));
            } else {
                assert(after.locations().contains_key(entity));
            }
        } else {
            assert(after.data().contains_key(entity));
            assert(!before.live().contains(entity));
            assert(after.locations().contains_key(entity));
            if before.locations().contains_key(entity) {
                assert(before.live().contains(entity));
            }
        }
    }
    assert forall|at: Coordinate|
        cells.size.contains(at) && cells.size.index_spec(at) < upto + 1 && (#[trigger] lamp_of(
            cells.at(at),
        )).is_some() implies exists|entity: gridbugs::entity_table::Entity| #[trigger]
        after.is_placed_light(entity) && after.locations()[entity].coord == at by {
        if at == coord {
        } else {
            cells.size.lemma_index_in_range(at);
            cells.size.lemma_index_in_range(coord);
            assert(cells.size.index_spec(at) < upto);
            let entity = choose|entity: gridbugs::entity_table::Entity| #[trigger]
                before.is_placed_light(entity) && before.locations()[entity].coord == at;
            assert(after.is_placed_light(entity));
        }
    }
    assert forall|a: gridbugs::entity_table::Entity, b: gridbugs::entity_table::Entity|
        #[trigger] after.is_placed_light(a) && #[trigger] after.is_placed_light(b)
            && after.locations()[a].coord == after.locations()[b].coord implies a == b by {
        lemma_light_old_or_new(before, after, marking, coord, found, a);
        lemma_light_old_or_new(before, after, marking, coord, found, b);
        if before.is_placed_light(a) && before.is_placed_light(b) {
        } else if before.is_placed_light(a) {
            assert(cells.size.index_spec(before.locations()[a].coord) < upto);
        } else if before.is_placed_light(b) {
            assert(cells.size.index_spec(before.locations()[b].coord) < upto);
        } else {
        }
    }
}

/// A light of the world after a cell was built was a light before, where it
/// was and as it was, or is new and stands in the cell that was built.
proof fn lemma_light_old_or_new(
    before: World,
    after: World,
    marking: Marking,
    coord: Coordinate,
    found: Option<gridbugs::entity_table::Entity>,
    entity: gridbugs::entity_table::Entity,
)
    requires
        before.wf(),
        cell_added(before, after, marking, coord, found),
        after.is_placed_light(entity),
    ensures
        before.is_placed_light(entity) ==> after.locations()[entity]
            == before.locations()[entity] && after.data()[entity] == before.data()[entity],
        !before.is_placed_light(entity) ==> !before.live().contains(entity)
            && after.locations()[entity].coord == coord,
{
    if before.data().contains_key(entity) {
        assert(before.live().contains(entity));
        if !before.locations().contains_key(entity) {
            assert(after.locations().contains_key(entity));
        }
    } else {
        assert(after.data().contains_key(entity));
        if before.locations().contains_key(entity) {
            assert(before.live().contains(entity));
        }
    }
}

} // verus!
