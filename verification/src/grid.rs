//! A dense rectangular grid with one value for every cell.

use vstd::prelude::*;
use crate::coord::{Coordinate, GridSize};

verus! {

/// One value of type `T` for every cell of a grid, in row-major order.
#[derive(Clone, Debug, PartialEq)]
pub struct Grid<T> {
    pub size: GridSize,
    pub cells: Vec<T>,
}

impl<T> Grid<T> {
    /// The grid has a valid size and exactly one value for each cell.
    pub open spec fn wf(&self) -> bool {
        self.size.wf() && self.cells@.len() == self.size.count_spec()
    }

    /// The value at `coord`, which must name a cell of the grid.
    pub open spec fn at(&self, coord: Coordinate) -> T {
        self.cells@[self.size.index_spec(coord)]
    }

    pub fn size(&self) -> (size: GridSize)
        ensures
            size == self.size,
    {
        self.size
    }

    /// The value at `coord`, or `None` where `coord` lies outside the grid.
    pub fn get(&self, coord: Coordinate) -> (value: Option<&T>)
        requires
            self.wf(),
        ensures
            value == if self.size.contains(coord) {
                Some(&self.at(coord))
            } else {
                None
            },
    {
        if self.size.contains(coord) {
            let index = self.size.index_of(coord);
            Some(&self.cells[index])
        } else {
            None
        }
    }

    /// Replaces the value at `coord` and leaves every other cell as it was.
    pub fn set(&mut self, coord: Coordinate, value: T)
        requires
            old(self).wf(),
            old(self).size.contains(coord),
        ensures
            final(self).wf(),
            final(self).size == old(self).size,
            final(self).at(coord) == value,
            forall|other: Coordinate|
                old(self).size.contains(other) && other != coord ==> #[trigger] final(self).at(
                    other,
                ) == old(self).at(other),
    {
        let index = self.size.index_of(coord);
        let ghost size = self.size;
        self.cells.set(index, value);
        assert forall|other: Coordinate|
            size.contains(other) && other != coord implies #[trigger] self.at(other) == old(
            self,
        ).at(other) by {
            size.lemma_index_in_range(other);
            size.lemma_index_in_range(coord);
        }
    }
}

impl<T: Copy> Grid<T> {
    /// A grid of the given size with `value` in every cell.
    pub fn filled(size: GridSize, value: T) -> (grid: Grid<T>)
        requires
            size.wf(),
        ensures
            grid.wf(),
            grid.size == size,
            forall|coord: Coordinate| size.contains(coord) ==> #[trigger] grid.at(coord) == value,
            forall|i: int| 0 <= i < grid.cells@.len() ==> #[trigger] grid.cells@[i] == value,
    {
        let count = size.count();
        let mut cells: Vec<T> = Vec::new();
        let mut i: usize = 0;
        while i < count
            invariant
                i <= count,
                cells@.len() == i,
                forall|j: int| 0 <= j < i ==> cells@[j] == value,
            decreases count - i,
        {
            cells.push(value);
            i = i + 1;
        }
        let grid = Grid { size, cells };
        assert forall|coord: Coordinate| size.contains(coord) implies #[trigger] grid.at(coord)
            == value by {
            size.lemma_index_in_range(coord);
        }
        grid
    }
}

} // verus!
