//! Line of sight over a grid of opacities.
//!
//! The scan itself is the recursive shadowcast of the `shadowcast` crate. This
//! module hands it an opacity grid, collects what it reports and keeps, for
//! every cell, the best of the reports that lie on the grid and in range.
//!
//! The eye may stand on the grid or one step beside it, where the space is
//! clear. From farther out the scan is not made and nothing of the grid is
//! seen: the scan gives up on a row that begins beyond the grid, and from
//! two steps out its first row does.

use vstd::prelude::*;
use crate::coord::{Circle, Coordinate, GridSize};
use crate::grid::Grid;

verus! {

/// What is left of a sight line that has met nothing yet.
pub const FULL_VISIBILITY: u8 = 255;

/// One report of the scan: the cell at `(x, y)` was reached by a sight line
/// of which `visibility` was left on arrival.
#[derive(Clone, Copy, Debug, PartialEq, Eq, Structural)]
pub struct Sighting {
    pub x: i32,
    pub y: i32,
    pub visibility: u8,
}

impl Sighting {
    pub open spec fn coord(self) -> Coordinate {
        Coordinate { x: self.x, y: self.y }
    }
}

/// `coord_2d::Coord`, the position that the scan asks the opacity of. What
/// it holds is seen only through [`outside_parts_of`].
#[verifier::external_type_specification]
#[verifier::external_body]
pub struct ExCoord(gridbugs::coord_2d::Coord);

/// `coord_2d::Size`, the size that the scan asks the grid for. Nothing is
/// said of what it holds but which call made it.
#[verifier::external_type_specification]
#[verifier::external_body]
pub struct ExSize(gridbugs::coord_2d::Size);

/// The reports of `shadowcast::Context::for_each_visible`, in the order in
/// which it makes them, for a grid of `width` by `height` cells whose
/// opacities are `opacity` in row-major order, an eye at `(x, y)`, a circular
/// range of squared radius `radius_squared` and a first visibility of
/// `initial`.
pub uninterp spec fn shadowcast_sightings(
    width: u16,
    height: u16,
    opacity: Seq<u8>,
    x: i32,
    y: i32,
    radius_squared: u32,
    initial: u8,
) -> Seq<Sighting>;

/// The `coord_2d::Size` that `coord_2d::Size::new_u16` makes of a width and
/// a height.
pub uninterp spec fn outside_size_of(width: u16, height: u16) -> gridbugs::coord_2d::Size;

/// The public fields `x` and `y` of a `coord_2d::Coord`, in that order.
pub uninterp spec fn outside_parts_of(coord: gridbugs::coord_2d::Coord) -> (i32, i32);

/// The cell that a `coord_2d::Coord` names.
pub open spec fn inside_coord(coord: gridbugs::coord_2d::Coord) -> Coordinate {
    Coordinate { x: outside_parts_of(coord).0, y: outside_parts_of(coord).1 }
}

/// `coord_2d::Size::new_u16`, which takes any two sides and always makes
/// the same size of the same two.
#[verifier::external_body]
fn outside_size(width: u16, height: u16) -> (size: gridbugs::coord_2d::Size)
    ensures
        size == outside_size_of(width, height),
{
    gridbugs::coord_2d::Size::new_u16(width, height)
}

/// The public fields `x` and `y` of a `coord_2d::Coord`, read as they are.
#[verifier::external_body]
fn outside_coord_parts(coord: gridbugs::coord_2d::Coord) -> (parts: (i32, i32))
    ensures
        parts == outside_parts_of(coord),
{
    (coord.x, coord.y)
}

/// The opacity stored at `(x, y)`, and 0 where the grid stores none.
pub open spec fn opacity_at_spec(field: &Grid<u8>, coord: Coordinate) -> u8 {
    if field.size.contains(coord) && field.size.index_spec(coord) < field.cells@.len() {
        field.cells@[field.size.index_spec(coord)]
    } else {
        0
    }
}

/// The opacity of the cell at `coord`; empty space beyond the grid is clear.
#[verifier::when_used_as_spec(opacity_at_spec)]
pub fn opacity_at(field: &Grid<u8>, coord: Coordinate) -> (opacity: u8)
    ensures
        opacity == opacity_at_spec(field, coord),
{
    if field.size.contains(coord) {
        assert(coord.y * field.size.width <= 65535 * 65535 && coord.y * field.size.width >= 0)
            by (nonlinear_arith)
            requires
                0 <= coord.y <= 65535,
                0 <= field.size.width <= 65535,
        ;
        let index: u64 = (coord.y as u64) * (field.size.width as u64) + (coord.x as u64);
        if index < field.cells.len() as u64 {
            field.cells[index as usize]
        } else {
            0
        }
    } else {
        0
    }
}

/// The opacity grid as the scan reads it: the `shadowcast::InputGrid` of a
/// [`Grid`] of opacities.
struct FieldInput;

impl gridbugs::shadowcast::InputGrid for FieldInput {
    type Grid = Grid<u8>;

    type Opacity = u8;

    /// The size of `grid`: the outside size made of its width and its
    /// height.
    fn size(&self, grid: &Grid<u8>) -> (size: gridbugs::coord_2d::Size)
        ensures
            size == outside_size_of(grid.size.width, grid.size.height),
    {
        outside_size(grid.size.width, grid.size.height)
    }

    /// The opacity that `grid` holds at the cell that `coord` names, and 0
    /// where `coord` names no cell of it.
    fn get_opacity(&self, grid: &Grid<u8>, coord: gridbugs::coord_2d::Coord) -> (opacity: u8)
        ensures
            opacity == opacity_at_spec(grid, inside_coord(coord)),
    {
        let (x, y) = outside_coord_parts(coord);
        opacity_at(grid, Coordinate { x, y })
    }
}

fn push_sighting(seen: &mut Vec<Sighting>, x: i32, y: i32, visibility: u8)
    ensures
        final(seen)@ == old(seen)@.push(Sighting { x, y, visibility }),
{
    seen.push(Sighting { x, y, visibility });
}

/// `shadowcast::Context::for_each_visible` on a fresh context, with `field`
/// as the grid, `origin` as the eye and `vision` as a
/// `vision_distance::Circle`. The result holds every report of the scan, in
/// order; of each report the position and the visibility are kept and the
/// set of visible sides is dropped. The scan reads nothing but its
/// arguments, so the reports are the same whenever the arguments are.
///
/// The eye must stand on the grid or one step beside it, and no side of the
/// grid may be longer than [`crate::coord::MAX_SIDE`]: the scan computes in
/// 32 bits, and within these limits none of its sums and products leaves
/// them.
#[verifier::external_body]
fn cast_shadows(field: &Grid<u8>, origin: Coordinate, vision: Circle, initial: u8) -> (seen: Vec<
    Sighting,
>)
    requires
        field.wf(),
        field.size.borders(origin),
    ensures
        seen@ == shadowcast_sightings(
            field.size.width,
            field.size.height,
            field.cells@,
            origin.x,
            origin.y,
            vision.distance_squared,
            initial,
        ),
{
    let mut seen = Vec::new();
    gridbugs::shadowcast::Context::<u8>::default().for_each_visible(
        gridbugs::coord_2d::Coord::new(origin.x, origin.y),
        &FieldInput,
        field,
        gridbugs::shadowcast::vision_distance::Circle::new_squared(vision.distance_squared),
        initial,
        |at, _sides, visibility| push_sighting(&mut seen, at.x, at.y, visibility),
    );
    seen
}

/// Whether a report counts: it names a cell of the grid within `vision` of
/// `origin`.
pub open spec fn admissible(size: GridSize, origin: Coordinate, vision: Circle, sighting: Sighting) -> bool {
    size.contains(sighting.coord()) && vision.reaches(origin, sighting.coord())
}

/// The greatest visibility among the reports in `sightings` that count and
/// name `coord`, and 0 where there is none.
pub open spec fn best_visibility(
    sightings: Seq<Sighting>,
    size: GridSize,
    origin: Coordinate,
    vision: Circle,
    coord: Coordinate,
) -> u8
    decreases sightings.len(),
{
    if sightings.len() == 0 {
        0
    } else {
        let before = best_visibility(sightings.drop_last(), size, origin, vision, coord);
        let sighting = sightings.last();
        if sighting.coord() == coord && admissible(size, origin, vision, sighting)
            && sighting.visibility > before {
            sighting.visibility
        } else {
            before
        }
    }
}

/// What the reports in `sightings` leave of the best sight line from `origin`
/// to `coord`, and 0 where they do not show `coord`.
///
/// The origin is always seen in full. Any other cell of the grid is seen as
/// well as the best report that counts and names it.
pub open spec fn merged_visibility(
    sightings: Seq<Sighting>,
    size: GridSize,
    origin: Coordinate,
    vision: Circle,
    coord: Coordinate,
) -> u8 {
    if coord == origin {
        FULL_VISIBILITY
    } else if size.contains(coord) {
        best_visibility(sightings, size, origin, vision, coord)
    } else {
        0
    }
}

/// What the scan reports from `origin`: its reports for an origin on the
/// grid or one step beside it, and nothing for an origin farther out.
pub open spec fn sightings_from(field: Grid<u8>, origin: Coordinate, vision: Circle) -> Seq<
    Sighting,
> {
    if field.size.borders(origin) {
        shadowcast_sightings(
            field.size.width,
            field.size.height,
            field.cells@,
            origin.x,
            origin.y,
            vision.distance_squared,
            FULL_VISIBILITY,
        )
    } else {
        Seq::empty()
    }
}

/// What is left of the best sight line from `origin` to `coord` over the
/// opacities of `field`, and 0 where `coord` is not seen.
pub open spec fn remaining_visibility(
    field: Grid<u8>,
    origin: Coordinate,
    vision: Circle,
    coord: Coordinate,
) -> u8 {
    merged_visibility(sightings_from(field, origin, vision), field.size, origin, vision, coord)
}

/// The best visibility is that of a report that counts, or 0; and no report
/// that counts has more.
pub proof fn lemma_best_visibility(
    sightings: Seq<Sighting>,
    size: GridSize,
    origin: Coordinate,
    vision: Circle,
    coord: Coordinate,
)
    ensures
        best_visibility(sightings, size, origin, vision, coord) > 0 ==> size.contains(coord)
            && vision.reaches(origin, coord) && exists|i: int|
            0 <= i < sightings.len() && (#[trigger] sightings[i]).coord() == coord
                && sightings[i].visibility == best_visibility(
                sightings,
                size,
                origin,
                vision,
                coord,
            ),
        forall|i: int|
            0 <= i < sightings.len() && (#[trigger] sightings[i]).coord() == coord && admissible(
                size,
                origin,
                vision,
                sightings[i],
            ) ==> sightings[i].visibility <= best_visibility(
                sightings,
                size,
                origin,
                vision,
                coord,
            ),
    decreases sightings.len(),
{
    if sightings.len() > 0 {
        let rest = sightings.drop_last();
        lemma_best_visibility(rest, size, origin, vision, coord);
        let best = best_visibility(sightings, size, origin, vision, coord);
        if best > 0 {
            if best == best_visibility(rest, size, origin, vision, coord) {
                let i = choose|i: int|
                    0 <= i < rest.len() && (#[trigger] rest[i]).coord() == coord
                        && rest[i].visibility == best;
                assert(sightings[i] == rest[i]);
            } else {
                assert(sightings[sightings.len() - 1] == sightings.last());
            }
        }
        assert forall|i: int|
            0 <= i < sightings.len() && (#[trigger] sightings[i]).coord() == coord && admissible(
                size,
                origin,
                vision,
                sightings[i],
            ) implies sightings[i].visibility <= best by {
            if i < rest.len() {
                assert(sightings[i] == rest[i]);
            }
        }
    }
}

/// The cells seen from one origin, each with what is left of the best sight
/// line to it.
#[derive(Clone, Debug, PartialEq)]
pub struct VisibleArea {
    pub origin: Coordinate,
    /// For every cell of the grid other than the origin, the visibility left
    /// on arrival, and 0 for a cell that is not seen.
    pub remaining: Grid<u8>,
}

impl View for VisibleArea {
    type V = Map<Coordinate, u8>;

    /// The seen cells, each mapped to its remaining visibility.
    open spec fn view(&self) -> Map<Coordinate, u8> {
        Map::new(|coord: Coordinate| self.visibility_at(coord) > 0, |coord: Coordinate| self.visibility_at(coord))
    }
}

impl VisibleArea {
    pub open spec fn wf(&self) -> bool {
        self.remaining.wf()
    }

    /// The remaining visibility at `coord`, and 0 where `coord` is not seen.
    pub open spec fn visibility_at(&self, coord: Coordinate) -> u8 {
        if coord == self.origin {
            FULL_VISIBILITY
        } else if self.remaining.size.contains(coord) {
            self.remaining.at(coord)
        } else {
            0
        }
    }

    pub fn origin(&self) -> (origin: Coordinate)
        ensures
            origin == self.origin,
    {
        self.origin
    }

    /// The remaining visibility at `coord`, or `None` where `coord` is not
    /// seen.
    pub fn get(&self, coord: Coordinate) -> (visibility: Option<u8>)
        requires
            self.wf(),
        ensures
            visibility == if self@.contains_key(coord) {
                Some(self@[coord])
            } else {
                None
            },
    {
        if coord == self.origin {
            Some(FULL_VISIBILITY)
        } else {
            match self.remaining.get(coord) {
                Some(left) => if *left > 0 {
                    Some(*left)
                } else {
                    None
                },
                None => None,
            }
        }
    }

    /// Whether `coord` is seen.
    pub fn contains(&self, coord: Coordinate) -> (seen: bool)
        requires
            self.wf(),
        ensures
            seen == self@.contains_key(coord),
    {
        self.get(coord).is_some()
    }
}

impl VisibleArea {
    /// The cells that `sightings` show from `origin` on a grid of `size`:
    /// the origin, and every cell that a report names on the grid and
    /// within `vision`, with the best visibility reported for it.
    pub fn from_sightings(
        size: GridSize,
        origin: Coordinate,
        vision: Circle,
        sightings: &Vec<Sighting>,
    ) -> (area: VisibleArea)
        requires
            size.wf(),
        ensures
            area.wf(),
            area.origin == origin,
            area.remaining.size == size,
            forall|coord: Coordinate|
                #[trigger] area.visibility_at(coord) == merged_visibility(
                    sightings@,
                    size,
                    origin,
                    vision,
                    coord,
                ),
    {
        let mut remaining: Grid<u8> = Grid::filled(size, 0u8);
        let mut i: usize = 0;
        assert(sightings@.take(0) =~= Seq::<Sighting>::empty());
        while i < sightings.len()
            invariant
                i <= sightings@.len(),
                size.wf(),
                remaining.wf(),
                remaining.size == size,
                forall|coord: Coordinate|
                    size.contains(coord) ==> remaining.at(coord) == best_visibility(
                        sightings@.take(i as int),
                        size,
                        origin,
                        vision,
                        coord,
                    ),
            decreases sightings@.len() - i,
        {
            let sighting = sightings[i];
            let at = Coordinate { x: sighting.x, y: sighting.y };
            assert(sightings@.take(i + 1).drop_last() =~= sightings@.take(i as int));
            assert(sightings@.take(i + 1).last() == sighting);
            if size.contains(at) && vision.reaches(origin, at) {
                let index = size.index_of(at);
                if sighting.visibility > remaining.cells[index] {
                    remaining.set(at, sighting.visibility);
                }
            }
            i = i + 1;
        }
        assert(sightings@.take(sightings@.len() as int) =~= sightings@);
        VisibleArea { origin, remaining }
    }
}

/// The cells seen from `origin` within `vision`, over the opacities of
/// `field`.
///
/// The origin is always seen, with full visibility. From an origin on the
/// grid or one step beside it, a cell is seen when the scan reports it on
/// the grid and in range, and what is left of its sight line is the most
/// that such a report gives. From an origin farther out nothing else is
/// seen.
pub fn compute_visible(field: &Grid<u8>, origin: Coordinate, vision: Circle) -> (area: VisibleArea)
    requires
        field.wf(),
    ensures
        area.wf(),
        area.origin == origin,
        area.remaining.size == field.size,
        forall|coord: Coordinate|
            #[trigger] area.visibility_at(coord) == remaining_visibility(
                *field,
                origin,
                vision,
                coord,
            ),
        area@.contains_key(origin) && area@[origin] == FULL_VISIBILITY,
        forall|coord: Coordinate|
            #[trigger] area@.contains_key(coord) ==> coord == origin || (field.size.contains(coord)
                && vision.reaches(origin, coord)),
{
    let size = field.size();
    let sightings = if size.borders(origin) {
        cast_shadows(field, origin, vision, FULL_VISIBILITY)
    } else {
        Vec::new()
    };
    let area = VisibleArea::from_sightings(size, origin, vision, &sightings);
    proof {
        assert forall|coord: Coordinate| #[trigger]
            area@.contains_key(coord) implies coord == origin || (
        field.size.contains(coord) && vision.reaches(origin, coord)) by {
            if coord != origin {
                lemma_best_visibility(sightings@, size, origin, vision, coord);
            }
        }
    }
    area
}

/// The origin is always seen, and in full: over any field, from any origin
/// and within any range, whether the origin stands on the grid or not.
pub proof fn lemma_origin_is_seen(field: Grid<u8>, origin: Coordinate, vision: Circle)
    ensures
        remaining_visibility(field, origin, vision, origin) == FULL_VISIBILITY,
{
}

/// Sight needs reach both ways: a cell that is seen from `origin` lies
/// within `vision` of it, and `origin` lies within `vision` of that cell;
/// and unless the two are one cell, the cell seen is a cell of the grid and
/// the origin stands on the grid or one step beside it.
pub proof fn lemma_sight_needs_mutual_reach(
    field: Grid<u8>,
    origin: Coordinate,
    vision: Circle,
    coord: Coordinate,
)
    requires
        remaining_visibility(field, origin, vision, coord) > 0,
    ensures
        vision.reaches(origin, coord),
        vision.reaches(coord, origin),
        coord != origin ==> field.size.borders(origin) && field.size.contains(coord),
{
    if coord != origin {
        lemma_best_visibility(
            sightings_from(field, origin, vision),
            field.size,
            origin,
            vision,
            coord,
        );
    }
    let dx = origin.x - coord.x;
    let dy = origin.y - coord.y;
    assert((-dx) * (-dx) == dx * dx) by (nonlinear_arith);
    assert((-dy) * (-dy) == dy * dy) by (nonlinear_arith);
    assert(coord.x - origin.x == -dx && coord.y - origin.y == -dy);
    assert(origin.distance2_spec(coord) == dx * dx + dy * dy);
    assert(coord.distance2_spec(origin) == (-dx) * (-dx) + (-dy) * (-dy));
    if coord == origin {
        assert(dx * dx == 0 && dy * dy == 0) by (nonlinear_arith)
            requires
                dx == 0,
                dy == 0,
        ;
    }
}

} // verus!
