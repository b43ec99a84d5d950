//! What the observer sees now and what it remembers.
//!
//! The grid keeps one record per cell and one counter. Every update raises
//! the counter by one and stamps the cells seen in it with the new value, so
//! a cell is in sight when its stamp equals the counter, remembered when its
//! stamp is older, and unknown while its stamp is 0. No record is ever
//! cleared. The colours of the last look are no part of the records: they
//! are kept beside them, for the cells in sight only, and made anew by every
//! update.

use vstd::prelude::*;
use crate::colour::Rgb24;
use crate::coord::{Circle, Coordinate, GridSize};
use crate::grid::Grid;
use crate::lighting::{compute_lighting, lit_colour};
use crate::scene::{Scene, TileLayers};
use crate::spatial::LayerTable;
use crate::shadowcast::{compute_visible, remaining_visibility, VisibleArea};

verus! {

/// How far the observer sees where no other range is given, as a squared
/// radius.
pub const OBSERVER_VISION_SQUARED: u32 = 90;

/// What the observer knows of one cell.
#[derive(Debug, Clone, Copy, PartialEq, Eq)]
pub enum CellVisibility {
    /// The cell is in sight, under the given light or under none.
    CurrentlyVisibleWithLightColour(Option<Rgb24>),
    /// The cell was in sight once and is not now.
    PreviouslyVisible,
    /// The cell was never in sight.
    NeverVisible,
}

/// The record of one cell. It holds no colour.
#[derive(Debug, Clone, Copy, PartialEq, Eq)]
pub struct VisibilityCell {
    /// The counter value of the last update that saw the cell, and 0 for a
    /// cell never seen.
    pub last_seen: u64,
    /// Who stood in the cell when it was last seen.
    pub tile_layers: TileLayers,
}

impl VisibilityCell {
    /// The record of a cell never seen: no stamp and nobody in any layer.
    pub open spec fn unseen_spec() -> VisibilityCell {
        VisibilityCell { last_seen: 0, tile_layers: TileLayers::empty_spec() }
    }

    pub fn unseen() -> (cell: VisibilityCell)
        ensures
            cell == VisibilityCell::unseen_spec(),
    {
        VisibilityCell { last_seen: 0, tile_layers: LayerTable::empty() }
    }

    pub open spec fn visibility_spec(
        &self,
        count: u64,
        light_colour: Option<Rgb24>,
    ) -> CellVisibility {
        if self.last_seen == 0 {
            CellVisibility::NeverVisible
        } else if self.last_seen == count {
            CellVisibility::CurrentlyVisibleWithLightColour(light_colour)
        } else {
            CellVisibility::PreviouslyVisible
        }
    }

    /// What the observer knows of the cell when the grid's counter stands at
    /// `count` and the last look found `light_colour` on the cell. The
    /// colour counts only for a cell in sight.
    #[verifier::when_used_as_spec(visibility_spec)]
    pub fn visibility(&self, count: u64, light_colour: Option<Rgb24>) -> (known: CellVisibility)
        ensures
            known == self.visibility_spec(count, light_colour),
    {
        if self.last_seen == 0 {
            CellVisibility::NeverVisible
        } else if self.last_seen == count {
            CellVisibility::CurrentlyVisibleWithLightColour(light_colour)
        } else {
            CellVisibility::PreviouslyVisible
        }
    }

    /// Who stood in the cell when it was last seen.
    pub fn tile_layers(&self) -> (layers: TileLayers)
        ensures
            layers == self.tile_layers,
    {
        self.tile_layers
    }

    pub fn last_seen(&self) -> (stamp: u64)
        ensures
            stamp == self.last_seen,
    {
        self.last_seen
    }
}

/// Why an update was not made.
#[derive(Debug, Clone, Copy, PartialEq, Eq, Structural)]
pub enum VisibilityError {
    /// The scene is not of the grid's size.
    SizeMismatch,
    /// The observer does not stand on the grid.
    ObserverOutOfBounds,
    /// The counter has reached the largest value it can hold.
    CounterExhausted,
}

/// The memory of the observer: one record per cell, the counter, and the
/// colours of the last look.
#[derive(Debug, Clone, PartialEq)]
pub struct VisibilityGrid {
    pub cells: Grid<VisibilityCell>,
    /// The colour that the last look found on each cell that it saw, and
    /// `None` for every other cell.
    pub light: Grid<Option<Rgb24>>,
    pub count: u64,
}

impl VisibilityGrid {
    /// There is one record and one place for a colour per cell; no record
    /// is stamped with more than the counter; and only a cell in sight has
    /// a colour.
    pub open spec fn wf(&self) -> bool {
        &&& self.cells.wf()
        &&& self.light.wf()
        &&& self.light.size == self.cells.size
        &&& forall|i: int|
            0 <= i < self.cells.cells@.len() ==> (#[trigger] self.cells.cells@[i]).last_seen
                <= self.count
        &&& forall|i: int|
            0 <= i < self.light.cells@.len() && (#[trigger] self.light.cells@[i]).is_some()
                ==> self.cells.cells@[i].last_seen == self.count
    }

    /// The record of the cell at `coord`.
    pub open spec fn cell(&self, coord: Coordinate) -> VisibilityCell {
        self.cells.at(coord)
    }

    /// The colour that the last look found on the cell at `coord`.
    pub open spec fn light_at(&self, coord: Coordinate) -> Option<Rgb24> {
        self.light.at(coord)
    }

    /// What the observer knows of the cell at `coord`.
    pub open spec fn classify_spec(&self, coord: Coordinate) -> CellVisibility {
        self.cell(coord).visibility_spec(self.count, self.light_at(coord))
    }

    /// Nothing was ever seen: the counter stands at 0, and every cell has
    /// the record of a cell never seen and no colour.
    pub open spec fn is_blank(&self) -> bool {
        &&& self.count == 0
        &&& forall|coord: Coordinate|
            #![trigger self.cell(coord)]
            #![trigger self.light_at(coord)]
            self.cells.size.contains(coord) ==> self.cell(coord) == VisibilityCell::unseen_spec()
                && self.light_at(coord).is_none()
    }

    /// A grid of the given size on which nothing was ever seen.
    pub fn new(size: GridSize) -> (grid: VisibilityGrid)
        requires
            size.wf(),
        ensures
            grid.wf(),
            grid.cells.size == size,
            grid.is_blank(),
    {
        VisibilityGrid {
            cells: Grid::filled(size, VisibilityCell::unseen()),
            light: Grid::filled(size, None),
            count: 0,
        }
    }

    pub fn size(&self) -> (size: GridSize)
        ensures
            size == self.cells.size,
    {
        self.cells.size
    }

    /// The counter: the number of updates made so far.
    pub fn count(&self) -> (count: u64)
        ensures
            count == self.count,
    {
        self.count
    }

    /// The record of the cell at `coord`, or `None` beyond the grid.
    pub fn get(&self, coord: Coordinate) -> (cell: Option<VisibilityCell>)
        requires
            self.wf(),
        ensures
            cell == if self.cells.size.contains(coord) {
                Some(self.cell(coord))
            } else {
                None
            },
    {
        match self.cells.get(coord) {
            Some(cell) => Some(*cell),
            None => None,
        }
    }

    /// The colour that the last look found on the cell at `coord`, or
    /// `None` where it saw the cell without light, did not see it, or the
    /// cell lies beyond the grid.
    pub fn light_colour(&self, coord: Coordinate) -> (colour: Option<Rgb24>)
        requires
            self.wf(),
        ensures
            colour == if self.cells.size.contains(coord) {
                self.light_at(coord)
            } else {
                None
            },
    {
        match self.light.get(coord) {
            Some(colour) => *colour,
            None => None,
        }
    }

    /// What the observer knows of the cell at `coord`; of a cell beyond the
    /// grid it knows nothing.
    pub fn classify(&self, coord: Coordinate) -> (known: CellVisibility)
        requires
            self.wf(),
        ensures
            known == if self.cells.size.contains(coord) {
                self.classify_spec(coord)
            } else {
                CellVisibility::NeverVisible
            },
    {
        match self.cells.get(coord) {
            Some(cell) => cell.visibility(self.count, self.light_colour(coord)),
            None => CellVisibility::NeverVisible,
        }
    }

    /// Every cell with its record, row by row from the top-left corner.
    pub fn enumerate(&self) -> (all: Vec<(Coordinate, VisibilityCell)>)
        requires
            self.wf(),
        ensures
            all@.len() == self.cells.size.count_spec(),
            forall|i: int|
                0 <= i < all@.len() ==> (#[trigger] all@[i]).0 == self.cells.size.coord_spec(i)
                    && all@[i].1 == self.cells.cells@[i],
            forall|coord: Coordinate|
                self.cells.size.contains(coord) ==> all@[self.cells.size.index_spec(coord)] == (
                coord,
                self.cell(coord),
            ),
    {
        let size = self.cells.size;
        let count = size.count();
        let mut all: Vec<(Coordinate, VisibilityCell)> = Vec::new();
        let mut i: usize = 0;
        while i < count
            invariant
                i <= count,
                size == self.cells.size,
                self.wf(),
                count == size.count_spec(),
                all@.len() == i,
                forall|k: int|
                    0 <= k < i ==> (#[trigger] all@[k]).0 == size.coord_spec(k) && all@[k].1
                        == self.cells.cells@[k],
            decreases count - i,
        {
            all.push((size.coord_of(i), self.cells.cells[i]));
            i = i + 1;
        }
        assert forall|coord: Coordinate| size.contains(coord) implies all@[size.index_spec(
            coord,
        )] == (coord, self.cell(coord)) by {
            size.lemma_index_in_range(coord);
        }
        all
    }

    /// The error that stops an update of this grid for `observer` over
    /// `scene`, or `None` where the update is made.
    pub open spec fn update_error(&self, observer: Coordinate, scene: &Scene) -> Option<
        VisibilityError,
    > {
        if scene.opacity.size != self.cells.size {
            Some(VisibilityError::SizeMismatch)
        } else if !self.cells.size.contains(observer) {
            Some(VisibilityError::ObserverOutOfBounds)
        } else if self.count == u64::MAX {
            Some(VisibilityError::CounterExhausted)
        } else {
            None
        }
    }

    /// Looks around from `observer` and records what is seen.
    ///
    /// The range is `override_radius` where one is given, and a squared
    /// radius of [`OBSERVER_VISION_SQUARED`] else. The update raises the
    /// counter by one. Each cell seen from `observer` gets the new counter
    /// value as its stamp and the occupants that `scene` has there, and the
    /// colour that the lights of `scene` throw on it, if any, is kept
    /// beside it. Every other cell keeps its record and has no colour.
    /// Where the update cannot be made, nothing changes, the counter
    /// included.
    pub fn update(
        &mut self,
        observer: Coordinate,
        scene: &Scene,
        override_radius: Option<Circle>,
    ) -> (done: Result<(), VisibilityError>)
        requires
            old(self).wf(),
            scene.wf(),
        ensures
            final(self).wf(),
            match done {
                Ok(_) => old(self).update_error(observer, scene).is_none() && follows(
                    *old(self),
                    *final(self),
                    observer,
                    *scene,
                    observer_vision(override_radius),
                ),
                Err(error) => old(self).update_error(observer, scene) == Some(error) && *final(self)
                    == *old(self),
            },
    {
        let size = self.cells.size;
        if !same_size(scene.opacity.size, size) {
            return Err(VisibilityError::SizeMismatch);
        }
        if !size.contains(observer) {
            return Err(VisibilityError::ObserverOutOfBounds);
        }
        if self.count == u64::MAX {
            return Err(VisibilityError::CounterExhausted);
        }
        let vision = match override_radius {
            Some(circle) => circle,
            None => Circle::new_squared(OBSERVER_VISION_SQUARED),
        };
        let area = compute_visible(&scene.opacity, observer, vision);
        let lit = compute_lighting(&scene.lights, &scene.opacity);
        self.record(&area, &scene.occupants, &lit);
        Ok(())
    }

    /// Records one look: raises the counter by one and stamps every cell of
    /// `area` with the new value, together with its occupants. Every other
    /// cell keeps its record. The colours of the look replace those of the
    /// look before: a cell of `area` has the colour that `lit` has for it,
    /// and every other cell has none.
    pub fn record(
        &mut self,
        area: &VisibleArea,
        occupants: &Grid<TileLayers>,
        lit: &Grid<Option<Rgb24>>,
    )
        requires
            old(self).wf(),
            old(self).count < u64::MAX,
            area.wf(),
            occupants.wf(),
            lit.wf(),
            area.remaining.size == old(self).cells.size,
            occupants.size == old(self).cells.size,
            lit.size == old(self).cells.size,
        ensures
            final(self).wf(),
            final(self).count == old(self).count + 1,
            final(self).cells.size == old(self).cells.size,
            forall|coord: Coordinate|
                old(self).cells.size.contains(coord) ==> #[trigger] final(self).cell(coord)
                    == stamped(
                    old(self).cell(coord),
                    final(self).count,
                    area.visibility_at(coord),
                    occupants.at(coord),
                ),
            forall|coord: Coordinate|
                old(self).cells.size.contains(coord) ==> #[trigger] final(self).light_at(coord)
                    == shown(area.visibility_at(coord), lit.at(coord)),
    {
        let size = self.cells.size;
        let stamp: u64 = self.count + 1;
        let total = size.count();
        let ghost before = *self;
        self.count = stamp;
        let mut i: usize = 0;
        while i < total
            invariant
                i <= total,
                total == size.count_spec(),
                before.wf(),
                size == before.cells.size,
                self.cells.wf(),
                self.cells.size == size,
                self.light.wf(),
                self.light.size == size,
                self.count == stamp,
                stamp == before.count + 1,
                area.wf(),
                area.remaining.size == size,
                occupants.wf(),
                occupants.size == size,
                lit.wf(),
                lit.size == size,
                forall|k: int|
                    0 <= k < i ==> self.cells.cells@[k] == stamped(
                        before.cells.cells@[k],
                        stamp,
                        area.visibility_at(size.coord_spec(k)),
                        occupants.cells@[k],
                    ) && self.light.cells@[k] == shown(
                        area.visibility_at(size.coord_spec(k)),
                        lit.cells@[k],
                    ),
                forall|k: int| i <= k < total ==> self.cells.cells@[k] == before.cells.cells@[k],
            decreases total - i,
        {
            let coord = size.coord_of(i);
            if area.contains(coord) {
                self.cells.cells.set(
                    i,
                    VisibilityCell { last_seen: stamp, tile_layers: occupants.cells[i] },
                );
                self.light.cells.set(i, lit.cells[i]);
            } else {
                self.light.cells.set(i, None);
            }
            i = i + 1;
        }
        proof {
            assert forall|coord: Coordinate| size.contains(coord) implies self.cell(coord)
                == stamped(
                before.cell(coord),
                stamp,
                area.visibility_at(coord),
                occupants.at(coord),
            ) && self.light_at(coord) == shown(area.visibility_at(coord), lit.at(coord)) by {
                size.lemma_index_in_range(coord);
            }
        }
    }
}

fn same_size(a: GridSize, b: GridSize) -> (same: bool)
    ensures
        same == (a == b),
{
    a.width == b.width && a.height == b.height
}

/// The range of an update: the one given, or the observer's own.
pub open spec fn observer_vision(override_radius: Option<Circle>) -> Circle {
    match override_radius {
        Some(circle) => circle,
        None => Circle { distance_squared: OBSERVER_VISION_SQUARED },
    }
}

/// The record of a cell after a look that stamps with `stamp`, where
/// `before` was its record until then: the stamp with what the look found
/// where the cell was seen, with `visibility` above 0, and `before` else.
pub open spec fn stamped(
    before: VisibilityCell,
    stamp: u64,
    visibility: u8,
    occupants: TileLayers,
) -> VisibilityCell {
    if visibility > 0 {
        VisibilityCell { last_seen: stamp, tile_layers: occupants }
    } else {
        before
    }
}

/// The colour of a cell after a look: the colour on it where the cell was
/// seen, with `visibility` above 0, and none else.
pub open spec fn shown(visibility: u8, light_colour: Option<Rgb24>) -> Option<Rgb24> {
    if visibility > 0 {
        light_colour
    } else {
        None
    }
}

/// The record of the cell at `coord` after an update that stamps with
/// `stamp`, where `before` was its record until then.
pub open spec fn updated_cell(
    before: VisibilityCell,
    stamp: u64,
    scene: Scene,
    observer: Coordinate,
    vision: Circle,
    coord: Coordinate,
) -> VisibilityCell {
    stamped(
        before,
        stamp,
        remaining_visibility(scene.opacity, observer, vision, coord),
        scene.occupants.at(coord),
    )
}

/// The colour of the cell at `coord` after an update: what the lights of
/// `scene` throw on it where it is seen from `observer`, and none else.
pub open spec fn updated_light(
    scene: Scene,
    observer: Coordinate,
    vision: Circle,
    coord: Coordinate,
) -> Option<Rgb24> {
    shown(
        remaining_visibility(scene.opacity, observer, vision, coord),
        lit_colour(scene.opacity, scene.lights@, coord),
    )
}

/// `after` is `before` after one update for `observer` over `scene` with
/// range `vision`.
pub open spec fn follows(
    before: VisibilityGrid,
    after: VisibilityGrid,
    observer: Coordinate,
    scene: Scene,
    vision: Circle,
) -> bool {
    &&& after.count == before.count + 1
    &&& after.cells.size == before.cells.size
    &&& after.cells.wf()
    &&& after.light.size == before.cells.size
    &&& after.light.wf()
    &&& forall|coord: Coordinate|
        before.cells.size.contains(coord) ==> #[trigger] after.cell(coord) == updated_cell(
            before.cell(coord),
            after.count,
            scene,
            observer,
            vision,
            coord,
        )
    &&& forall|coord: Coordinate|
        before.cells.size.contains(coord) ==> #[trigger] after.light_at(coord) == updated_light(
            scene,
            observer,
            vision,
            coord,
        )
}

/// `after` is `before` one update later, whatever was seen in that update:
/// the counter is one higher, every cell either keeps its record or is
/// stamped with the new counter value, and only a cell with the new stamp
/// has a colour.
pub open spec fn advances(before: VisibilityGrid, after: VisibilityGrid) -> bool {
    &&& after.count == before.count + 1
    &&& after.cells.size == before.cells.size
    &&& after.cells.wf()
    &&& after.light.size == before.cells.size
    &&& after.light.wf()
    &&& forall|coord: Coordinate|
        before.cells.size.contains(coord) ==> #[trigger] after.cell(coord) == before.cell(coord)
            || after.cell(coord).last_seen == after.count
    &&& forall|coord: Coordinate|
        before.cells.size.contains(coord) && (#[trigger] after.light_at(coord)).is_some()
            ==> after.cell(coord).last_seen == after.count
}

/// An update never stamps a cell with anything but the new counter value,
/// leaves every cell that it does not stamp as it was, and leaves a colour
/// on the cells that it stamps only.
pub proof fn lemma_update_advances(
    before: VisibilityGrid,
    after: VisibilityGrid,
    observer: Coordinate,
    scene: Scene,
    vision: Circle,
)
    requires
        follows(before, after, observer, scene, vision),
    ensures
        advances(before, after),
{
    assert forall|coord: Coordinate|
        before.cells.size.contains(coord) && (#[trigger] after.light_at(coord)).is_some()
            implies after.cell(coord).last_seen == after.count by {
        assert(after.cell(coord) == updated_cell(
            before.cell(coord),
            after.count,
            scene,
            observer,
            vision,
            coord,
        ));
    }
}

/// One update keeps the grid well formed: afterwards, too, no cell is
/// stamped with more than the counter, and only a cell in sight has a
/// colour.
pub proof fn lemma_advance_keeps_wf(before: VisibilityGrid, after: VisibilityGrid)
    requires
        before.wf(),
        advances(before, after),
    ensures
        after.wf(),
{
    let size = before.cells.size;
    assert forall|i: int| 0 <= i < after.cells.cells@.len() implies (
    #[trigger] after.cells.cells@[i]).last_seen <= after.count by {
        size.lemma_coord_in_range(i);
        let coord = size.coord_spec(i);
        assert(after.cell(coord) == after.cells.cells@[i]);
        assert(before.cell(coord) == before.cells.cells@[i]);
    }
    assert forall|i: int|
        0 <= i < after.light.cells@.len() && (#[trigger] after.light.cells@[i]).is_some()
            implies after.cells.cells@[i].last_seen == after.count by {
        size.lemma_coord_in_range(i);
        let coord = size.coord_spec(i);
        assert(after.light_at(coord) == after.light.cells@[i]);
        assert(after.cell(coord) == after.cells.cells@[i]);
    }
}

/// Memory is monotonic. Over any run of updates that starts from a well
/// formed grid, the stamp of a cell never goes down and never passes the
/// counter, and a cell that was once seen is never again reported as never
/// seen.
pub proof fn lemma_memory_is_monotonic(
    history: Seq<VisibilityGrid>,
    coord: Coordinate,
    earlier: int,
    later: int,
)
    requires
        0 <= earlier <= later < history.len(),
        history[0].wf(),
        forall|i: int|
            0 <= i < history.len() - 1 ==> advances(#[trigger] history[i], history[i + 1]),
        history[0].cells.size.contains(coord),
    ensures
        history[later].wf(),
        history[later].cells.size == history[0].cells.size,
        history[later].count == history[0].count + later,
        history[earlier].cell(coord).last_seen <= history[later].cell(coord).last_seen,
        history[later].cell(coord).last_seen <= history[later].count,
        history[earlier].classify_spec(coord) != CellVisibility::NeverVisible
            ==> history[later].classify_spec(coord) != CellVisibility::NeverVisible,
    decreases later,
{
    let size = history[0].cells.size;
    if later == 0 {
        size.lemma_index_in_range(coord);
    } else {
        let previous = later - 1;
        lemma_memory_is_monotonic(history, coord, 0, previous);
        assert(advances(history[previous], history[previous + 1]));
        lemma_advance_keeps_wf(history[previous], history[later]);
        size.lemma_index_in_range(coord);
        if earlier < later {
            lemma_memory_is_monotonic(history, coord, earlier, previous);
        }
    }
}

/// The observer sees its own cell: after an update the cell that the
/// observer stands on is in sight, whatever stands there and however
/// opaque it is.
pub proof fn lemma_observer_is_in_sight(
    before: VisibilityGrid,
    after: VisibilityGrid,
    observer: Coordinate,
    scene: Scene,
    vision: Circle,
)
    requires
        follows(before, after, observer, scene, vision),
        before.cells.size.contains(observer),
    ensures
        after.cell(observer).last_seen == after.count,
        after.cell(observer).tile_layers == scene.occupants.at(observer),
        after.classify_spec(observer) == CellVisibility::CurrentlyVisibleWithLightColour(
            after.light_at(observer),
        ),
{
    assert(after.cell(observer) == updated_cell(
        before.cell(observer),
        after.count,
        scene,
        observer,
        vision,
        observer,
    ));
}

/// A cell left behind is remembered, without colour. A cell that was seen
/// at some time and is not seen in an update keeps its record, is
/// classified as seen before, and has no colour, whatever the lights throw
/// on it in that update.
pub proof fn lemma_cell_left_behind_is_remembered(
    before: VisibilityGrid,
    after: VisibilityGrid,
    observer: Coordinate,
    scene: Scene,
    vision: Circle,
    coord: Coordinate,
)
    requires
        before.wf(),
        follows(before, after, observer, scene, vision),
        before.cells.size.contains(coord),
        before.cell(coord).last_seen > 0,
        remaining_visibility(scene.opacity, observer, vision, coord) == 0,
    ensures
        after.cell(coord) == before.cell(coord),
        after.light_at(coord).is_none(),
        after.classify_spec(coord) == CellVisibility::PreviouslyVisible,
{
    before.cells.size.lemma_index_in_range(coord);
    assert(after.cell(coord) == updated_cell(
        before.cell(coord),
        after.count,
        scene,
        observer,
        vision,
        coord,
    ));
    assert(after.light_at(coord) == updated_light(scene, observer, vision, coord));
}

} // verus!
