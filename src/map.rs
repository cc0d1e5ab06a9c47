//! Rectangular grids of per-cell values, and distances on the hexagonal map.

use vstd::prelude::*;
use vstd::arithmetic::div_mod::{
    lemma_fundamental_div_mod, lemma_fundamental_div_mod_converse_div,
    lemma_fundamental_div_mod_converse_mod, lemma_mod_pos_bound,
};
use vstd::arithmetic::mul::lemma_mul_inequality;
use crate::types::{MapPos, Size2};

verus! {

/// A usable map size: at least one cell in each direction.
pub open spec fn size_ok(size: Size2) -> bool {
    size.w > 0 && size.h > 0
}

pub open spec fn cell_count(size: Size2) -> int {
    size.w * size.h
}

pub open spec fn in_map(size: Size2, pos: MapPos) -> bool {
    0 <= pos.x < size.w && 0 <= pos.y < size.h
}

/// Where a cell is stored in a grid: row after row.
pub open spec fn index_of(size: Size2, pos: MapPos) -> int {
    pos.y * size.w + pos.x
}

/// The cell stored at index `i` of a grid.
pub open spec fn cell_at(size: Size2, i: int) -> MapPos {
    MapPos { x: (i % (size.w as int)) as i32, y: (i / (size.w as int)) as i32 }
}

pub proof fn lemma_index_of_in_range(size: Size2, pos: MapPos)
    requires
        size_ok(size),
        in_map(size, pos),
    ensures
        0 <= index_of(size, pos) < cell_count(size),
{
    lemma_mul_inequality(pos.y as int, size.h - 1, size.w as int);
    assert((size.h - 1) * size.w == size.h * size.w - size.w) by (nonlinear_arith);
    assert(0 <= pos.y * size.w) by (nonlinear_arith)
        requires
            pos.y >= 0,
            size.w > 0,
    ;
}

pub proof fn lemma_cell_at(size: Size2, i: int)
    requires
        size_ok(size),
        0 <= i < cell_count(size),
    ensures
        in_map(size, cell_at(size, i)),
        index_of(size, cell_at(size, i)) == i,
{
    let w = size.w as int;
    lemma_fundamental_div_mod(i, w);
    lemma_mod_pos_bound(i, w);
    let q = i / w;
    let r = i % w;
    assert(q >= 0) by (nonlinear_arith)
        requires
            i == w * q + r,
            0 <= r < w,
            i >= 0,
    ;
    assert(q < size.h) by (nonlinear_arith)
        requires
            i == w * q + r,
            0 <= r < w,
            i < size.w * size.h,
            w == size.w,
            w > 0,
    ;
    assert(q * w + r == i) by (nonlinear_arith)
        requires
            i == w * q + r,
    ;
}

pub proof fn lemma_index_of_inverse(size: Size2, pos: MapPos)
    requires
        size_ok(size),
        in_map(size, pos),
    ensures
        cell_at(size, index_of(size, pos)) == pos,
{
    let w = size.w as int;
    let i = index_of(size, pos);
    lemma_fundamental_div_mod_converse_div(i, w, pos.y as int, pos.x as int);
    lemma_fundamental_div_mod_converse_mod(i, w, pos.y as int, pos.x as int);
}

/// The offset coordinate `v / 2`, rounded toward zero.
pub open spec fn half(v: int) -> int {
    if v >= 0 {
        v / 2
    } else {
        -((-v) / 2)
    }
}

pub open spec fn abs(v: int) -> int {
    if v >= 0 {
        v
    } else {
        -v
    }
}

/// Number of steps between two cells of the hexagonal map.
pub open spec fn hex_distance(from: MapPos, to: MapPos) -> int {
    let dx = (to.x + half(to.y as int)) - (from.x + half(from.y as int));
    let dy = to.y - from.y;
    (abs(dx) + abs(dy) + abs(dx - dy)) / 2
}

fn half_exec(v: i32) -> (r: i64)
    ensures
        r == half(v as int),
{
    if v >= 0 {
        (v / 2) as i64
    } else {
        let n: i64 = -(v as i64);
        -((n as u64 / 2) as i64)
    }
}

fn abs_exec(v: i64) -> (r: u64)
    requires
        v > i64::MIN,
    ensures
        r == abs(v as int),
{
    if v >= 0 {
        v as u64
    } else {
        (-v) as u64
    }
}

pub fn distance(from: MapPos, to: MapPos) -> (r: i64)
    ensures
        r == hex_distance(from, to),
        r >= 0,
{
    let dx: i64 = (to.x as i64 + half_exec(to.y)) - (from.x as i64 + half_exec(from.y));
    let dy: i64 = to.y as i64 - from.y as i64;
    let sum: u64 = abs_exec(dx) + abs_exec(dy) + abs_exec(dx - dy);
    (sum / 2) as i64
}

/// A value for each cell of a rectangular map.
#[derive(Clone, Debug)]
pub struct Grid<T> {
    size: Size2,
    tiles: Vec<T>,
}

impl<T: Copy> Grid<T> {
    pub closed spec fn spec_size(&self) -> Size2 {
        self.size
    }

    /// The values, row after row.
    pub closed spec fn cells(&self) -> Seq<T> {
        self.tiles@
    }

    pub open spec fn wf(&self) -> bool {
        size_ok(self.spec_size()) && self.cells().len() == cell_count(self.spec_size())
    }

    pub open spec fn spec_tile(&self, pos: MapPos) -> T {
        self.cells()[index_of(self.spec_size(), pos)]
    }

    /// A map of the given size with every cell set to `value`.
    pub fn new(size: Size2, value: T) -> (r: Grid<T>)
        requires
            size_ok(size),
            cell_count(size) <= usize::MAX,
        ensures
            r.wf(),
            r.spec_size() == size,
            r.cells() == Seq::new(cell_count(size) as nat, |i: int| value),
    {
        let n: usize = size.w as usize * size.h as usize;
        let mut tiles: Vec<T> = Vec::with_capacity(n);
        let mut i: usize = 0;
        while i < n
            invariant
                n == cell_count(size),
                i <= n,
                tiles@ == Seq::new(i as nat, |k: int| value),
            decreases n - i,
        {
            tiles.push(value);
            i += 1;
            assert(tiles@ =~= Seq::new(i as nat, |k: int| value));
        }
        Grid { size, tiles }
    }

    pub fn size(&self) -> (r: Size2)
        ensures
            r == self.spec_size(),
    {
        self.size
    }

    pub fn len(&self) -> (r: usize)
        requires
            self.wf(),
        ensures
            r == cell_count(self.spec_size()),
    {
        self.tiles.len()
    }

    pub fn contains(&self, pos: MapPos) -> (r: bool)
        ensures
            r == in_map(self.spec_size(), pos),
    {
        0 <= pos.x && pos.x < self.size.w && 0 <= pos.y && pos.y < self.size.h
    }

    fn cell_index(&self, pos: MapPos) -> (r: usize)
        requires
            self.wf(),
            in_map(self.spec_size(), pos),
        ensures
            r == index_of(self.spec_size(), pos),
            r < self.cells().len(),
    {
        let len = self.tiles.len();
        proof {
            lemma_index_of_in_range(self.size, pos);
            assert(index_of(self.size, pos) < len);
            assert(0 <= pos.y * self.size.w) by (nonlinear_arith)
                requires
                    pos.y >= 0,
                    self.size.w > 0,
            ;
        }
        (pos.y as usize) * (self.size.w as usize) + pos.x as usize
    }

    /// The value at a cell of the map.
    pub fn tile(&self, pos: MapPos) -> (r: T)
        requires
            self.wf(),
            in_map(self.spec_size(), pos),
        ensures
            r == self.spec_tile(pos),
    {
        let i = self.cell_index(pos);
        self.tiles[i]
    }

    /// The value stored at index `i`.
    pub fn at(&self, i: usize) -> (r: T)
        requires
            i < self.cells().len(),
        ensures
            r == self.cells()[i as int],
    {
        self.tiles[i]
    }

    /// The cell stored at index `i`.
    pub fn pos_at(&self, i: usize) -> (r: MapPos)
        requires
            self.wf(),
            i < self.cells().len(),
        ensures
            r == cell_at(self.spec_size(), i as int),
            in_map(self.spec_size(), r),
    {
        proof {
            lemma_cell_at(self.size, i as int);
        }
        let w = self.size.w as usize;
        MapPos { x: (i % w) as i32, y: (i / w) as i32 }
    }

    pub fn set_at(&mut self, i: usize, value: T)
        requires
            i < old(self).cells().len(),
        ensures
            final(self).spec_size() == old(self).spec_size(),
            final(self).cells() == old(self).cells().update(i as int, value),
    {
        self.tiles.set(i, value);
    }

    pub fn set_tile(&mut self, pos: MapPos, value: T)
        requires
            old(self).wf(),
            in_map(old(self).spec_size(), pos),
        ensures
            final(self).wf(),
            0 <= index_of(old(self).spec_size(), pos) < old(self).cells().len(),
            final(self).spec_size() == old(self).spec_size(),
            final(self).cells() == old(self).cells().update(
                index_of(old(self).spec_size(), pos),
                value,
            ),
    {
        let i = self.cell_index(pos);
        self.tiles.set(i, value);
    }

    /// Sets every cell to `value`.
    pub fn fill(&mut self, value: T)
        ensures
            final(self).spec_size() == old(self).spec_size(),
            final(self).cells() == Seq::new(old(self).cells().len(), |i: int| value),
    {
        let ghost n = self.tiles@.len();
        let ghost size = self.size;
        let mut i: usize = 0;
        while i < self.tiles.len()
            invariant
                self.size == size,
                self.tiles@.len() == n,
                i <= n,
                forall|j: int| 0 <= j < i ==> self.tiles@[j] == value,
            decreases n - i,
        {
            self.tiles.set(i, value);
            i += 1;
        }
        assert(self.tiles@ =~= Seq::new(n, |i: int| value));
    }
}

} // verus!
