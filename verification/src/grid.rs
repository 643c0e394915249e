//! The stored tiles of one loaded map layer.
//!
//! The engine keeps at most one tile entity per coordinate of a
//! `width x height` grid, in a row-major slot vector: coordinate `(x, y)`
//! lives in slot `y * width + x`.  Entities are carried as their 64-bit
//! identifiers.  Looking a snapped cursor coordinate up in this grid is what
//! decides which tile is hovered.

use vstd::prelude::*;
use vstd::pervasive::VecAdditionalExecFns;

verus! {

/// The stored tile entities of one map layer.
pub struct TileGrid {
    width: u32,
    height: u32,
    tiles: Vec<Option<u64>>,
}

impl TileGrid {
    /// The grid holds exactly one slot for every coordinate.
    pub closed spec fn wf(self) -> bool {
        self.tiles@.len() == self.width as int * self.height as int
    }

    pub closed spec fn spec_width(self) -> u32 {
        self.width
    }

    pub closed spec fn spec_height(self) -> u32 {
        self.height
    }

    /// The row-major slot of coordinate `(x, y)`.
    pub closed spec fn slot(self, x: int, y: int) -> int {
        y * self.width as int + x
    }

    /// Whether `(x, y)` is a coordinate of the map.
    pub open spec fn in_bounds(self, x: int, y: int) -> bool {
        0 <= x < self.spec_width() as int && 0 <= y < self.spec_height() as int
    }

    /// The tile stored at coordinate `(x, y)`.
    pub closed spec fn tile_at(self, x: int, y: int) -> Option<u64> {
        self.tiles@[self.slot(x, y)]
    }

    /// A coordinate's slot lies inside the slot vector.
    pub proof fn lemma_slot_in_range(self, x: int, y: int)
        requires
            self.wf(),
            self.in_bounds(x, y),
        ensures
            0 <= self.slot(x, y) < self.spec_width() as int * self.spec_height() as int,
    {
        let w = self.width as int;
        let h = self.height as int;
        assert(0 <= y * w + x < w * h) by (nonlinear_arith)
            requires
                0 <= x < w,
                0 <= y < h,
        ;
    }

    /// Distinct coordinates use distinct slots.
    pub proof fn lemma_slot_injective(self, x: int, y: int, i: int, j: int)
        requires
            self.in_bounds(x, y),
            self.in_bounds(i, j),
            x != i || y != j,
        ensures
            self.slot(x, y) != self.slot(i, j),
    {
        let w = self.width as int;
        assert(y * w + x != j * w + i) by (nonlinear_arith)
            requires
                0 <= x < w,
                0 <= i < w,
                x != i || y != j,
        ;
    }

    /// An empty grid of the given dimensions.
    pub fn new(width: u32, height: u32) -> (g: Self)
        requires
            width as int * height as int <= usize::MAX as int,
        ensures
            g.wf(),
            g.spec_width() == width,
            g.spec_height() == height,
            forall|x: int, y: int| g.in_bounds(x, y) ==> #[trigger] g.tile_at(x, y) is None,
    {
        let n: usize = (width as usize) * (height as usize);
        let mut tiles: Vec<Option<u64>> = Vec::new();
        while tiles.len() < n
            invariant
                tiles@.len() <= n,
                forall|k: int| 0 <= k < tiles@.len() ==> tiles@[k] is None,
            decreases n - tiles@.len(),
        {
            tiles.push(None);
        }
        let g = TileGrid { width, height, tiles };
        proof {
            assert forall|x: int, y: int| g.in_bounds(x, y) implies g.tile_at(x, y) is None by {
                g.lemma_slot_in_range(x, y);
            }
        }
        g
    }

    /// Stores `tile` at coordinate `(x, y)`, leaving every other coordinate
    /// as it was.
    pub fn set_tile(&mut self, x: u32, y: u32, tile: u64)
        requires
            old(self).wf(),
            old(self).in_bounds(x as int, y as int),
        ensures
            final(self).wf(),
            final(self).spec_width() == old(self).spec_width(),
            final(self).spec_height() == old(self).spec_height(),
            final(self).tile_at(x as int, y as int) == Some(tile),
            forall|i: int, j: int|
                old(self).in_bounds(i, j) && (i != x as int || j != y as int)
                    ==> #[trigger] final(self).tile_at(i, j) == old(self).tile_at(i, j),
    {
        proof {
            broadcast use vstd::std_specs::vec::axiom_spec_len;

            assert(self.tiles.len() == self.tiles@.len());
            old(self).lemma_slot_in_range(x as int, y as int);
        }
        let idx: usize = (y as usize) * (self.width as usize) + (x as usize);
        self.tiles.set(idx, Some(tile));
        proof {
            assert forall|i: int, j: int|
                old(self).in_bounds(i, j) && (i != x as int || j != y as int)
                    implies final(self).tile_at(i, j) == old(self).tile_at(i, j) by {
                old(self).lemma_slot_in_range(i, j);
                old(self).lemma_slot_injective(x as int, y as int, i, j);
            }
        }
    }

    /// The tile stored at a coordinate of the map.
    pub fn get(&self, x: u32, y: u32) -> (t: Option<u64>)
        requires
            self.wf(),
            self.in_bounds(x as int, y as int),
        ensures
            t == self.tile_at(x as int, y as int),
    {
        proof {
            broadcast use vstd::std_specs::vec::axiom_spec_len;

            assert(self.tiles.len() == self.tiles@.len());
            self.lemma_slot_in_range(x as int, y as int);
        }
        let idx: usize = (y as usize) * (self.width as usize) + (x as usize);
        self.tiles[idx]
    }

    /// The tile under a snapped cursor coordinate, which may lie outside the
    /// map: `None` off the map or where no tile is stored.
    pub fn checked_get(&self, x: i64, y: i64) -> (t: Option<u64>)
        requires
            self.wf(),
        ensures
            t == if self.in_bounds(x as int, y as int) {
                self.tile_at(x as int, y as int)
            } else {
                None::<u64>
            },
    {
        if 0 <= x && x < self.width as i64 && 0 <= y && y < self.height as i64 {
            self.get(x as u32, y as u32)
        } else {
            None
        }
    }

    pub fn width(&self) -> (w: u32)
        ensures
            w == self.spec_width(),
    {
        self.width
    }

    pub fn height(&self) -> (h: u32)
        ensures
            h == self.spec_height(),
    {
        self.height
    }
}

} // verus!
