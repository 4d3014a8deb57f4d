//! The per-cell data model of a landscape and the quantities derived from it.

use vstd::prelude::*;
use core::marker::PhantomData;
use crate::pop::error::LookupError;
use crate::pop::level::{grid_at, lemma_cell_in_grid, wrap, Landscape};

verus! {

/// One grid point of the landscape.
#[derive(Clone, Copy, Debug)]
pub struct LandPos {
    pub flags: u32,
    pub height: u16,
    pub b_2: u16,
    pub c: u16,
    pub c_1: u8,
    pub c_2: u8,
    pub c_3: u8,
    pub brightness: u8,
    pub ph: u8,
    pub ph_2: u8,
    pub land_adj: bool,
}

/// Upper bound of every effective height.
pub const HEIGHT_LIMIT: u16 = 0x400;

/// Upper bound of the effective height of a cell with a cliff marker.
pub const CLIFF_HEIGHT_LIMIT: u16 = 0x3fe;

/// What a cell is lifted by above the sea.
pub const LAND_LIFT: u16 = 0x96;

/// The effective height of open water.
pub const WATER_LEVEL: u16 = 0x4b;

/// The height that the texture tables are indexed by: the raw elevation
/// lifted above the sea and clamped. A cell with a cliff marker stops two
/// below the limit; open water that no land touches lies half as high as
/// the shore.
pub open spec fn effective_height(height: u16, c_1: u8, land_adj: bool) -> int {
    if c_1 != 0 {
        if height + LAND_LIFT < CLIFF_HEIGHT_LIMIT {
            height + LAND_LIFT
        } else {
            CLIFF_HEIGHT_LIMIT as int
        }
    } else if height > 0 || land_adj {
        if height + LAND_LIFT < HEIGHT_LIMIT {
            height + LAND_LIFT
        } else {
            HEIGHT_LIMIT as int
        }
    } else {
        WATER_LEVEL as int
    }
}

/// Computes the effective height of a cell.
pub fn get_height(pos: &LandPos) -> (h: u16)
    ensures
        h == effective_height(pos.height, pos.c_1, pos.land_adj),
        WATER_LEVEL <= h <= HEIGHT_LIMIT,
{
    let lifted: u32 = pos.height as u32 + 0x96;
    if pos.c_1 != 0 {
        if lifted < 0x3fe {
            lifted as u16
        } else {
            0x3fe
        }
    } else if pos.height > 0 || pos.land_adj {
        if lifted < 0x400 {
            lifted as u16
        } else {
            0x400
        }
    } else {
        0x4b
    }
}


/// The brightness of a cell that the sun gives it: the ambient 0x80, more
/// where the ground rises to the next row and to the next column.
pub open spec fn sun_brightness(ch: u16, h1: u16, h2: u16) -> u8 {
    let b = 0x93 + (h1 - ch) * 0x93 - (ch - h2) * 0x93;
    let t = b + 0x15e * 0x80;
    if t <= 0 {
        0u8
    } else if t / 0x15e >= 255 {
        255u8
    } else {
        (t / 0x15e) as u8
    }
}

impl LandPos {
    /// A cell of the given height with ambient brightness.
    pub open spec fn plain(height: u16, land_adj: bool) -> LandPos {
        LandPos {
            flags: 0,
            height,
            b_2: 0,
            c: 0,
            c_1: 0,
            c_2: 0,
            c_3: 0,
            brightness: 0x80,
            ph: 0,
            ph_2: 0,
            land_adj,
        }
    }

    /// A cell of the given height lit by the sun.
    pub open spec fn sunlit(height: u16, land_adj: bool, h1: u16, h2: u16) -> LandPos {
        LandPos {
            flags: 0,
            height,
            b_2: 0,
            c: 0,
            c_1: 0,
            c_2: 0,
            c_3: 0,
            brightness: sun_brightness(height, h1, h2),
            ph: 0,
            ph_2: 0,
            land_adj,
        }
    }

    /// The cells of a landscape, row by row, with ambient brightness.
    pub fn from_landscape<const N: usize>(landscape: &Landscape<N>) -> (v: Vec<LandPos>)
        requires
            N * N <= usize::MAX,
        ensures
            v.len() == N * N,
            forall|i: int, j: int|
                0 <= i < N && 0 <= j < N ==> #[trigger] v[grid_at(i, j, N as int)] == LandPos::plain(
                    landscape.at(i, j),
                    landscape.land_adjacent(i, j),
                ),
    {
        let size: usize = N * N;
        let default_pos = LandPos::default();
        let mut v: Vec<LandPos> = vec![default_pos; size];
        let mut i: usize = 0;
        while i < N
            invariant
                i <= N,
                v.len() == N * N,
                forall|r: int, c: int|
                    0 <= r < i && 0 <= c < N ==> #[trigger] v[grid_at(r, c, N as int)]
                        == LandPos::plain(landscape.at(r, c), landscape.land_adjacent(r, c)),
            decreases N - i,
        {
            proof {
                lemma_cell_in_grid(i as int, 0, N as int);
            }
            let p: usize = i * N;
            let mut j: usize = 0;
            while j < N
                invariant
                    j <= N,
                    i < N,
                    p == i * N,
                    p + N <= N * N,
                    v.len() == N * N,
                    forall|r: int, c: int|
                        (0 <= r < i && 0 <= c < N) || (r == i && 0 <= c < j) ==> #[trigger] v[grid_at(
                            r,
                            c,
                            N as int,
                        )] == LandPos::plain(landscape.at(r, c), landscape.land_adjacent(r, c)),
                decreases N - j,
            {
                let ghost before = v@;
                let cell = LandPos {
                    flags: 0,
                    height: landscape.height[i][j],
                    b_2: 0,
                    c: 0,
                    c_1: 0,
                    c_2: 0,
                    c_3: 0,
                    brightness: 0x80,
                    ph: 0,
                    ph_2: 0,
                    land_adj: landscape.is_land_adj(i, j),
                };
                v[p + j] = cell;
                proof {
                    assert forall|r: int, c: int|
                        (0 <= r < i && 0 <= c < N) || (r == i && 0 <= c < j + 1) implies #[trigger] v[grid_at(
                        r,
                        c,
                        N as int,
                    )] == LandPos::plain(landscape.at(r, c), landscape.land_adjacent(r, c)) by {
                        lemma_cell_in_grid(r, c, N as int);
                        if grid_at(r, c, N as int) == p + j {
                            crate::pop::level::lemma_grid_at_injective(
                                r,
                                c,
                                i as int,
                                j as int,
                                N as int,
                            );
                        } else {
                            assert(v[grid_at(r, c, N as int)] == before[grid_at(r, c, N as int)]);
                        }
                    }
                }
                j += 1;
            }
            i += 1;
        }
        v
    }

    /// The cells of a landscape, row by row, each lit by the sun according
    /// to the heights of the cell below it and of the cell to its right.
    pub fn from_landscape_sun<const N: usize>(landscape: &Landscape<N>) -> (v: Vec<LandPos>)
        requires
            N * N <= usize::MAX,
        ensures
            v.len() == N * N,
            forall|i: int, j: int|
                0 <= i < N && 0 <= j < N ==> #[trigger] v[grid_at(i, j, N as int)]
                    == LandPos::sunlit(
                    landscape.at(i, j),
                    landscape.land_adjacent(i, j),
                    landscape.around(i + 1, j),
                    landscape.around(i, j + 1),
                ),
    {
        let sunlight_var_1: i32 = 0x93;
        let sunlight_var_2: i32 = 0x93;
        let sunlight_var_3: i32 = 0x93;
        let mut v = Self::from_landscape(landscape);
        let mut i: usize = 0;
        while i < N
            invariant
                i <= N,
                v.len() == N * N,
                sunlight_var_1 == 0x93,
                sunlight_var_2 == 0x93,
                sunlight_var_3 == 0x93,
                forall|r: int, c: int|
                    0 <= r < N && 0 <= c < N ==> #[trigger] v[grid_at(r, c, N as int)] == (if r
                        < i {
                        LandPos::sunlit(
                            landscape.at(r, c),
                            landscape.land_adjacent(r, c),
                            landscape.around(r + 1, c),
                            landscape.around(r, c + 1),
                        )
                    } else {
                        LandPos::plain(landscape.at(r, c), landscape.land_adjacent(r, c))
                    }),
            decreases N - i,
        {
            proof {
                lemma_cell_in_grid(i as int, 0, N as int);
            }
            let p: usize = i * N;
            let mut j: usize = 0;
            while j < N
                invariant
                    j <= N,
                    i < N,
                    p == i * N,
                    p + N <= N * N,
                    v.len() == N * N,
                    sunlight_var_1 == 0x93,
                    sunlight_var_2 == 0x93,
                    sunlight_var_3 == 0x93,
                    forall|r: int, c: int|
                        0 <= r < N && 0 <= c < N ==> #[trigger] v[grid_at(r, c, N as int)] == (if r
                            < i || (r == i && c < j) {
                            LandPos::sunlit(
                                landscape.at(r, c),
                                landscape.land_adjacent(r, c),
                                landscape.around(r + 1, c),
                                landscape.around(r, c + 1),
                            )
                        } else {
                            LandPos::plain(landscape.at(r, c), landscape.land_adjacent(r, c))
                        }),
                decreases N - j,
            {
                let i_next = if i + 1 == N {
                    0
                } else {
                    i + 1
                };
                let j_next = if j + 1 == N {
                    0
                } else {
                    j + 1
                };
                proof {
                    lemma_torus_step(i as int, N as int);
                    lemma_torus_step(j as int, N as int);
                }
                let ch: i32 = landscape.height[i][j] as i32;
                let h1: i32 = landscape.height[i_next][j] as i32;
                let h2: i32 = landscape.height[i][j_next] as i32;
                let b = sunlight_var_3 + (h1 - ch) * sunlight_var_2 - (ch - h2) * sunlight_var_1;
                let t = b + 0x15e * 0x80;
                let lit: u8 = if t <= 0 {
                    0
                } else if t / 0x15e >= 255 {
                    255
                } else {
                    (t / 0x15e) as u8
                };
                let ghost before = v@;
                assert(before[p + j] == before[grid_at(i as int, j as int, N as int)]);
                let mut cell = v[p + j];
                cell.brightness = lit;
                v[p + j] = cell;
                proof {
                    assert forall|r: int, c: int| 0 <= r < N && 0 <= c < N implies #[trigger] v[grid_at(
                        r,
                        c,
                        N as int,
                    )] == (if r < i || (r == i && c < j + 1) {
                        LandPos::sunlit(
                            landscape.at(r, c),
                            landscape.land_adjacent(r, c),
                            landscape.around(r + 1, c),
                            landscape.around(r, c + 1),
                        )
                    } else {
                        LandPos::plain(landscape.at(r, c), landscape.land_adjacent(r, c))
                    }) by {
                        lemma_cell_in_grid(r, c, N as int);
                        if grid_at(r, c, N as int) == p + j {
                            crate::pop::level::lemma_grid_at_injective(
                                r,
                                c,
                                i as int,
                                j as int,
                                N as int,
                            );
                        } else {
                            assert(v[grid_at(r, c, N as int)] == before[grid_at(r, c, N as int)]);
                        }
                    }
                }
                j += 1;
            }
            i += 1;
        }
        v
    }
}

impl Default for LandPos {
    /// A water cell with every field zero.
    fn default() -> (pos: LandPos)
        ensures
            pos == (LandPos {
                flags: 0,
                height: 0,
                b_2: 0,
                c: 0,
                c_1: 0,
                c_2: 0,
                c_3: 0,
                brightness: 0,
                ph: 0,
                ph_2: 0,
                land_adj: false,
            }),
    {
        LandPos {
            flags: 0,
            height: 0,
            b_2: 0,
            c: 0,
            c_1: 0,
            c_2: 0,
            c_3: 0,
            brightness: 0,
            ph: 0,
            ph_2: 0,
            land_adj: false,
        }
    }
}

/// The next index on a ring of `n`.
pub proof fn lemma_torus_step(i: int, n: int)
    requires
        0 <= i < n,
    ensures
        wrap(i, n) == i,
        wrap(i + 1, n) == (if i + 1 == n {
            0
        } else {
            i + 1
        }),
{
    vstd::arithmetic::div_mod::lemma_small_mod(i as nat, n as nat);
    if i + 1 == n {
        vstd::arithmetic::div_mod::lemma_mod_self_0(n);
    } else {
        vstd::arithmetic::div_mod::lemma_small_mod((i + 1) as nat, n as nat);
    }
}


/// A cell together with its place in the grid.
pub struct LandPosPoint<'a> {
    /// The column.
    pub x: usize,
    /// The row.
    pub y: usize,
    pub pos: &'a LandPos,
}

/// Four cells that meet at a corner: the rasterization unit of a tile.
///
/// ```text
/// p1 - p2
/// |    |
/// p3 - p4
/// ```
pub struct LandPosQuad<'a> {
    /// The column of `p1`, modulo 8.
    pub x: u16,
    /// The row of `p3`, modulo 8.
    pub y: u16,
    pub p1: &'a LandPos,
    pub p2: &'a LandPos,
    pub p3: &'a LandPos,
    pub p4: &'a LandPos,
}

/// A quad with the column and the row of its upper left cell.
pub type LandPosQ<'a> = (usize, usize, LandPosQuad<'a>);

/// The landscape as the texture engine sees it: a square grid of cells,
/// stored row by row and closed to a torus.
pub struct LandscapeFull {
    width: usize,
    data: Vec<LandPos>,
}

impl LandscapeFull {
    /// The number of cells along one side.
    pub closed spec fn spec_width(&self) -> usize {
        self.width
    }

    /// The cells, row by row.
    pub closed spec fn cells(&self) -> Seq<LandPos> {
        self.data@
    }

    /// There is a cell for every place of the grid.
    pub open spec fn wf(&self) -> bool {
        self.cells().len() == self.spec_width() * self.spec_width()
    }

    /// The cell at row `i`, column `j`.
    pub open spec fn cell(&self, i: int, j: int) -> LandPos {
        self.cells()[grid_at(i, j, self.spec_width() as int)]
    }

    /// The cell at row `i`, column `j`, both taken round the torus.
    pub open spec fn cell_around(&self, i: int, j: int) -> LandPos {
        self.cell(wrap(i, self.spec_width() as int), wrap(j, self.spec_width() as int))
    }

    /// The quad whose upper left cell is at row `i`, column `j`.
    pub open spec fn quad(&self, i: int, j: int) -> LandPosQuad<'_> {
        LandPosQuad {
            x: (j % 8) as u16,
            y: ((i + 1) % 8) as u16,
            p1: &self.cell(i, j),
            p2: &self.cell_around(i, j + 1),
            p3: &self.cell_around(i + 1, j),
            p4: &self.cell_around(i + 1, j + 1),
        }
    }

    /// The cell at row `i`, column `j` with its place.
    pub open spec fn point(&self, i: int, j: int) -> LandPosPoint<'_> {
        LandPosPoint { x: j as usize, y: i as usize, pos: &self.cell(i, j) }
    }

    /// The cells of a landscape are no more than a machine can count.
    pub proof fn lemma_grid_fits(&self)
        requires
            self.wf(),
        ensures
            self.spec_width() * self.spec_width() <= usize::MAX,
    {
        assert(self.data.len() == self.data@.len());
    }

    /// A landscape of `width` by `width` cells.
    pub fn new(width: usize, data: Vec<LandPos>) -> (land: Self)
        requires
            data.len() == width * width,
        ensures
            land.wf(),
            land.spec_width() == width,
            land.cells() == data@,
    {
        Self { width, data }
    }

    /// The number of cells along one side.
    pub fn land_size(&self) -> (n: usize)
        ensures
            n == self.spec_width(),
    {
        self.width
    }

    /// Walks the cells row by row.
    pub fn iter(&self) -> (it: LandPosIterator<'_, LandPosPoint<'_>>)
        ensures
            it.landscape == self,
            it.pos_width == 0,
            it.pos_height == 0,
    {
        LandPosIterator::new(self)
    }

    /// Walks the quads row by row.
    pub fn iter_quad(&self) -> (it: LandPosIterator<'_, LandPosQ<'_>>)
        ensures
            it.landscape == self,
            it.pos_width == 0,
            it.pos_height == 0,
    {
        LandPosIterator::new(self)
    }

    fn get(&self, i: usize, j: usize) -> (pos: &LandPos)
        requires
            self.wf(),
            i < self.spec_width(),
            j < self.spec_width(),
        ensures
            *pos == self.cell(i as int, j as int),
    {
        let len = self.data.len();
        proof {
            lemma_cell_in_grid(i as int, j as int, self.width as int);
        }
        &self.data[i * self.width + j]
    }
}

/// A walk over a landscape, row by row and from left to right in each row.
/// `T` is what the walk hands out: cells with their place, or quads.
pub struct LandPosIterator<'a, T> {
    /// The column of what comes next.
    pub pos_width: usize,
    /// The row of what comes next; the side of the grid when nothing comes.
    pub pos_height: usize,
    pub landscape: &'a LandscapeFull,
    pub phantom: PhantomData<T>,
}

impl<'a, T> LandPosIterator<'a, T> {
    /// A walk that starts at the upper left cell.
    pub fn new(landscape: &'a LandscapeFull) -> (it: Self)
        ensures
            it.landscape == landscape,
            it.pos_width == 0,
            it.pos_height == 0,
    {
        LandPosIterator { pos_width: 0, pos_height: 0, landscape, phantom: PhantomData }
    }

    /// The walk is over a grid that has all its cells, and stands on one of
    /// them or behind the last.
    pub open spec fn wf(&self) -> bool {
        &&& self.landscape.wf()
        &&& self.pos_height < self.landscape.spec_width() ==> self.pos_width
            < self.landscape.spec_width()
    }

    /// Nothing comes any more.
    pub open spec fn done(&self) -> bool {
        self.pos_height >= self.landscape.spec_width()
    }

    /// The column that the walk stands on after its next step.
    pub open spec fn next_width(&self) -> usize {
        if self.pos_width + 1 >= self.landscape.spec_width() {
            0
        } else {
            (self.pos_width + 1) as usize
        }
    }

    /// The row that the walk stands on after its next step.
    pub open spec fn next_height(&self) -> usize {
        if self.pos_width + 1 >= self.landscape.spec_width() {
            (self.pos_height + 1) as usize
        } else {
            self.pos_height
        }
    }

    fn advance(&mut self)
        requires
            old(self).wf(),
            !old(self).done(),
        ensures
            final(self).wf(),
            final(self).landscape == old(self).landscape,
            final(self).pos_width == old(self).next_width(),
            final(self).pos_height == old(self).next_height(),
    {
        let width = self.landscape.land_size();
        self.pos_width += 1;
        if self.pos_width >= width {
            self.pos_width = 0;
            self.pos_height += 1;
        }
    }
}

impl<'a> LandPosIterator<'a, LandPosPoint<'a>> {
    /// Hands out the cell that the walk stands on and steps on, or says
    /// that the walk is over.
    pub fn next(&mut self) -> (r: Option<LandPosPoint<'a>>)
        requires
            old(self).wf(),
        ensures
            final(self).wf(),
            final(self).landscape == old(self).landscape,
            old(self).done() ==> r is None && *final(self) == *old(self),
            !old(self).done() ==> r == Some(
                old(self).landscape.point(old(self).pos_height as int, old(self).pos_width as int),
            ) && final(self).pos_width == old(self).next_width() && final(self).pos_height == old(
                self,
            ).next_height(),
    {
        if self.pos_height >= self.landscape.land_size() {
            return None;
        }
        let pos = self.landscape.get(self.pos_height, self.pos_width);
        let ret = Some(LandPosPoint { x: self.pos_width, y: self.pos_height, pos });
        self.advance();
        ret
    }
}

impl<'a> LandPosIterator<'a, LandPosQ<'a>> {
    /// Hands out the quad whose upper left cell the walk stands on, with
    /// that cell's column and row, and steps on; or says that the walk is
    /// over. The right and the lower cells of a quad on the last column or
    /// row are those of the first.
    pub fn next(&mut self) -> (r: Option<LandPosQ<'a>>)
        requires
            old(self).wf(),
        ensures
            final(self).wf(),
            final(self).landscape == old(self).landscape,
            old(self).done() ==> r is None && *final(self) == *old(self),
            !old(self).done() ==> r == Some(
                (
                    old(self).pos_width,
                    old(self).pos_height,
                    old(self).landscape.quad(
                        old(self).pos_height as int,
                        old(self).pos_width as int,
                    ),
                ),
            ) && final(self).pos_width == old(self).next_width() && final(self).pos_height == old(
                self,
            ).next_height(),
    {
        let width = self.landscape.land_size();
        if self.pos_height >= width {
            return None;
        }
        let i = self.pos_height;
        let j = self.pos_width;
        let i_next = if i + 1 == width {
            0
        } else {
            i + 1
        };
        let j_next = if j + 1 == width {
            0
        } else {
            j + 1
        };
        proof {
            lemma_torus_step(i as int, width as int);
            lemma_torus_step(j as int, width as int);
        }
        // The row is one ahead, to align with the texture of the game.
        let x_low: usize = j & 0x7;
        let y_low: usize = if i == usize::MAX {
            0
        } else {
            (i + 1) & 0x7
        };
        assert(x_low == j % 8) by (bit_vector)
            requires
                x_low == j & 0x7,
        ;
        assert(i != usize::MAX ==> y_low == (i + 1) % 8) by {
            if i != usize::MAX {
                let k: usize = (i + 1) as usize;
                assert(k & 0x7 == k % 8) by (bit_vector);
            }
        }
        let pos = LandPosQuad {
            x: x_low as u16,
            y: y_low as u16,
            p1: self.landscape.get(i, j),
            p2: self.landscape.get(i, j_next),
            p3: self.landscape.get(i_next, j),
            p4: self.landscape.get(i_next, j_next),
        };
        let ret = Some((self.pos_width, self.pos_height, pos));
        self.advance();
        ret
    }
}

/// The product of two bounded numbers is bounded.
pub proof fn lemma_product_bound(a: int, b: int, bound_a: int, bound_b: int)
    by (nonlinear_arith)
    requires
        -bound_a <= a <= bound_a,
        -bound_b <= b <= bound_b,
    ensures
        -(bound_a * bound_b) <= a * b <= bound_a * bound_b,
{
}

/// The value at row `i`, column `j` of a tile of side `n` whose corners are
/// `p1` (upper left), `p2` (upper right), `p3` (lower left) and `p4`
/// (lower right), times `n * n`.
///
/// The value starts each row at `p1 + (p3 - p1) * i / n` and grows in each
/// column by `(p2 - p1) / n + ((p4 - p3) / n - (p2 - p1) / n) * i / n`.
pub open spec fn interpolated(p1: int, p2: int, p3: int, p4: int, n: int, i: int, j: int) -> int {
    (p1 * n + (p3 - p1) * i) * n + ((p2 - p1) * n + ((p4 - p3) - (p2 - p1)) * i) * j
}

/// The value across a quad, held exactly: `start` is the value at the
/// upper left corner, and the increments are kept times the side `n`
/// (`inc_vert`, `inc_start`) and times `n * n` (`inc_horz`), so that every
/// value times `n * n` is a whole number.
pub struct LandInc {
    pub start: i64,
    /// How much each row's start grows, times `n`.
    pub inc_vert: i64,
    /// How much the first row grows in each column, times `n`.
    pub inc_start: i64,
    /// How much a row's growth grows from row to row, times `n * n`.
    pub inc_horz: i64,
    pub n: i64,
}

impl LandInc {
    /// The increments of a tile of side `n` with the given corners.
    pub open spec fn spec_mk(p1: int, p2: int, p3: int, p4: int, n: int) -> LandInc {
        LandInc {
            start: p1 as i64,
            inc_vert: (p3 - p1) as i64,
            inc_start: (p2 - p1) as i64,
            inc_horz: ((p4 - p3) - (p2 - p1)) as i64,
            n: n as i64,
        }
    }

    /// The side is positive, and every number is as small as corners of 16
    /// bits and a side of 16 bits make it.
    pub open spec fn wf(&self) -> bool {
        &&& 0 < self.n <= 0xffff
        &&& -0xffff <= self.start <= 0xffff
        &&& -0xffff <= self.inc_vert <= 0xffff
        &&& -0xffff <= self.inc_start <= 0xffff
        &&& -0x1fffe <= self.inc_horz <= 0x1fffe
    }

    /// What every value is multiplied by: the side squared.
    pub open spec fn spec_scale(&self) -> int {
        self.n * self.n
    }

    /// The start of row `i` times `n`, and the growth per column in row `i`
    /// times `n * n`.
    pub open spec fn spec_inc(&self, i: int) -> (int, int) {
        (self.start * self.n + self.inc_vert * i, self.inc_start * self.n + self.inc_horz * i)
    }

    /// The value at row `i`, column `j`, times `n * n`.
    pub open spec fn spec_inc_line(&self, i: int, j: int) -> int {
        self.spec_inc(i).0 * self.n + self.spec_inc(i).1 * j
    }

    pub fn mk_land_inc(p1: u16, p2: u16, p3: u16, p4: u16, n: u16) -> (inc: Self)
        requires
            n > 0,
        ensures
            inc == Self::spec_mk(p1 as int, p2 as int, p3 as int, p4 as int, n as int),
            inc.wf(),
    {
        let start = p1 as i64;
        let inc_vert = p3 as i64 - p1 as i64;
        let inc_start = p2 as i64 - p1 as i64;
        let inc_horz = (p4 as i64 - p3 as i64) - inc_start;
        Self { start, inc_vert, inc_start, inc_horz, n: n as i64 }
    }

    pub fn mk_land_inc8(p1: u8, p2: u8, p3: u8, p4: u8, n: u16) -> (inc: Self)
        requires
            n > 0,
        ensures
            inc == Self::spec_mk(p1 as int, p2 as int, p3 as int, p4 as int, n as int),
            inc.wf(),
    {
        Self::mk_land_inc(p1 as u16, p2 as u16, p3 as u16, p4 as u16, n)
    }

    /// The side squared.
    pub fn scale(&self) -> (s: i64)
        requires
            self.wf(),
        ensures
            s == self.spec_scale(),
            0 < s <= 0xffff * 0xffff,
    {
        proof {
            lemma_product_bound(self.n as int, self.n as int, 0xffff, 0xffff);
            assert(self.n * self.n > 0) by (nonlinear_arith)
                requires
                    self.n > 0,
            ;
        }
        self.n * self.n
    }

    /// The start of row `i` and the growth per column in row `i`.
    pub fn inc(&self, i: usize) -> (r: (i64, i64))
        requires
            self.wf(),
            i <= self.n,
        ensures
            r.0 == self.spec_inc(i as int).0,
            r.1 == self.spec_inc(i as int).1,
            -2 * 0xffff * 0xffff <= r.0 <= 2 * 0xffff * 0xffff,
            -3 * 0xffff * 0xffff <= r.1 <= 3 * 0xffff * 0xffff,
    {
        let row = i as i64;
        proof {
            lemma_product_bound(self.start as int, self.n as int, 0xffff, 0xffff);
            lemma_product_bound(self.inc_vert as int, row as int, 0xffff, 0xffff);
            lemma_product_bound(self.inc_start as int, self.n as int, 0xffff, 0xffff);
            lemma_product_bound(self.inc_horz as int, row as int, 0x1fffe, 0xffff);
        }
        let start = self.start * self.n + self.inc_vert * row;
        let inc_line = self.inc_start * self.n + self.inc_horz * row;
        (start, inc_line)
    }

    /// The value at row `i`, column `j`.
    pub fn inc_line(&self, i: usize, j: usize) -> (v: i64)
        requires
            self.wf(),
            i <= self.n,
            j <= self.n,
        ensures
            v == self.spec_inc_line(i as int, j as int),
    {
        let (start, inc_line) = self.inc(i);
        let col = j as i64;
        proof {
            lemma_product_bound(start as int, self.n as int, 2 * 0xffff * 0xffffint, 0xffff);
            lemma_product_bound(inc_line as int, col as int, 3 * 0xffff * 0xffffint, 0xffff);
        }
        start * self.n + inc_line * col
    }
}

/// What `LandInc` computes is the interpolation between its corners.
pub proof fn lemma_inc_line_interpolates(p1: int, p2: int, p3: int, p4: int, n: int, i: int, j: int)
    requires
        0 <= p1 <= 0xffff,
        0 <= p2 <= 0xffff,
        0 <= p3 <= 0xffff,
        0 <= p4 <= 0xffff,
        0 < n <= 0xffff,
    ensures
        LandInc::spec_mk(p1, p2, p3, p4, n).spec_inc_line(i, j) == interpolated(
            p1,
            p2,
            p3,
            p4,
            n,
            i,
            j,
        ),
{
}

/// A mean of two numbers with weights that are not negative stays between
/// any two bounds that the numbers stay between.
proof fn lemma_mean_bounds(a: int, b: int, wa: int, wb: int, lo: int, hi: int)
    by (nonlinear_arith)
    requires
        lo <= a <= hi,
        lo <= b <= hi,
        wa >= 0,
        wb >= 0,
    ensures
        lo * (wa + wb) <= a * wa + b * wb <= hi * (wa + wb),
{
}

/// Inside the tile the interpolation stays between any two bounds that the
/// four corners stay between.
pub proof fn lemma_interpolated_bounds(
    p1: int,
    p2: int,
    p3: int,
    p4: int,
    n: int,
    i: int,
    j: int,
    lo: int,
    hi: int,
)
    requires
        lo <= p1 <= hi,
        lo <= p2 <= hi,
        lo <= p3 <= hi,
        lo <= p4 <= hi,
        0 < n,
        0 <= i <= n,
        0 <= j <= n,
    ensures
        lo * (n * n) <= interpolated(p1, p2, p3, p4, n, i, j) <= hi * (n * n),
{
    // The left and the right edge at row `i`, times `n`.
    let left = p1 * (n - i) + p3 * i;
    let right = p2 * (n - i) + p4 * i;
    lemma_mean_bounds(p1, p3, n - i, i, lo, hi);
    lemma_mean_bounds(p2, p4, n - i, i, lo, hi);
    assert(left == p1 * n + (p3 - p1) * i) by (nonlinear_arith)
        requires
            left == p1 * (n - i) + p3 * i,
    ;
    assert(right - left == (p2 - p1) * n + ((p4 - p3) - (p2 - p1)) * i) by (nonlinear_arith)
        requires
            left == p1 * (n - i) + p3 * i,
            right == p2 * (n - i) + p4 * i,
    ;
    let value = left * (n - j) + right * j;
    assert(value == left * n + (right - left) * j) by (nonlinear_arith)
        requires
            value == left * (n - j) + right * j,
    ;
    assert(value == interpolated(p1, p2, p3, p4, n, i, j));
    lemma_mean_bounds(left, right, n - j, j, lo * n, hi * n);
    assert((lo * n) * n == lo * (n * n)) by (nonlinear_arith);
    assert((hi * n) * n == hi * (n * n)) by (nonlinear_arith);
}

/// At the corners of the tile the interpolation is the corner's value.
pub proof fn law_corner_exactness(p1: int, p2: int, p3: int, p4: int, n: int)
    by (nonlinear_arith)
    ensures
        interpolated(p1, p2, p3, p4, n, 0, 0) == p1 * (n * n),
        interpolated(p1, p2, p3, p4, n, n, 0) == p3 * (n * n),
        interpolated(p1, p2, p3, p4, n, 0, n) == p2 * (n * n),
        interpolated(p1, p2, p3, p4, n, n, n) == p4 * (n * n),
{
}

impl<'a> LandPosQuad<'a> {
    /// The cliff marker across the quad.
    pub open spec fn spec_c1_inc(&self, n: int) -> LandInc {
        LandInc::spec_mk(
            self.p1.c_1 as int,
            self.p2.c_1 as int,
            self.p3.c_1 as int,
            self.p4.c_1 as int,
            n,
        )
    }

    /// The brightness across the quad.
    pub open spec fn spec_brightness_inc(&self, n: int) -> LandInc {
        LandInc::spec_mk(
            self.p1.brightness as int,
            self.p2.brightness as int,
            self.p3.brightness as int,
            self.p4.brightness as int,
            n,
        )
    }

    /// The effective height across the quad.
    pub open spec fn spec_height_inc(&self, n: int) -> LandInc {
        LandInc::spec_mk(
            effective_height(self.p1.height, self.p1.c_1, self.p1.land_adj),
            effective_height(self.p2.height, self.p2.c_1, self.p2.land_adj),
            effective_height(self.p3.height, self.p3.c_1, self.p3.land_adj),
            effective_height(self.p4.height, self.p4.c_1, self.p4.land_adj),
            n,
        )
    }

    pub fn c1_inc(&self, n: u16) -> (inc: LandInc)
        requires
            n > 0,
        ensures
            inc == self.spec_c1_inc(n as int),
            inc.wf(),
    {
        LandInc::mk_land_inc8(self.p1.c_1, self.p2.c_1, self.p3.c_1, self.p4.c_1, n)
    }

    pub fn brightness_inc(&self, n: u16) -> (inc: LandInc)
        requires
            n > 0,
        ensures
            inc == self.spec_brightness_inc(n as int),
            inc.wf(),
    {
        LandInc::mk_land_inc8(
            self.p1.brightness,
            self.p2.brightness,
            self.p3.brightness,
            self.p4.brightness,
            n,
        )
    }

    pub fn height_inc(&self, n: u16) -> (inc: LandInc)
        requires
            n > 0,
        ensures
            inc == self.spec_height_inc(n as int),
            inc.wf(),
    {
        let height_1 = get_height(self.p1);
        let height_2 = get_height(self.p2);
        let height_3 = get_height(self.p3);
        let height_4 = get_height(self.p4);
        LandInc::mk_land_inc(height_1, height_2, height_3, height_4, n)
    }
}

/// A quad laid out as a square tile of pixels: the three quantities that
/// the texel formula reads, interpolated across the tile.
pub struct LandTileQuad<'a> {
    pub width: u16,
    pub pos: &'a LandPosQuad<'a>,
    pub c1_inc: LandInc,
    pub brightness_inc: LandInc,
    pub height_inc: LandInc,
}

impl<'a> LandTileQuad<'a> {
    /// The tile of side `n` over `pos`.
    pub open spec fn spec_new(n: u16, pos: &'a LandPosQuad<'a>) -> Self {
        LandTileQuad {
            width: n,
            pos,
            c1_inc: pos.spec_c1_inc(n as int),
            brightness_inc: pos.spec_brightness_inc(n as int),
            height_inc: pos.spec_height_inc(n as int),
        }
    }

    /// The tile has a side, and its interpolations are those of its quad.
    pub open spec fn wf(&self) -> bool {
        &&& self.width > 0
        &&& *self == Self::spec_new(self.width, self.pos)
    }

    pub fn new(n: u16, pos: &'a LandPosQuad<'a>) -> (tile: LandTileQuad<'a>)
        requires
            n > 0,
        ensures
            tile == Self::spec_new(n, pos),
            tile.wf(),
    {
        let c1_inc = pos.c1_inc(n);
        let brightness_inc = pos.brightness_inc(n);
        let height_inc = pos.height_inc(n);
        Self { width: n, pos, c1_inc, brightness_inc, height_inc }
    }

    /// The column of the quad, modulo 8.
    pub fn coord_x(&self) -> (x: usize)
        ensures
            x == self.pos.x,
    {
        self.pos.x as usize
    }

    /// The row of the quad, modulo 8.
    pub fn coord_y(&self) -> (y: usize)
        ensures
            y == self.pos.y,
    {
        self.pos.y as usize
    }

    pub fn tile_width(&self) -> (w: usize)
        ensures
            w == self.width,
    {
        self.width as usize
    }

    pub fn tile_height(&self) -> (h: usize)
        ensures
            h == self.width,
    {
        self.width as usize
    }

    /// The side squared: what `c1`, `brightness` and `height` are multiplied
    /// by.
    pub fn scale(&self) -> (s: i64)
        requires
            self.wf(),
        ensures
            s == self.width * self.width,
            0 < s <= 0xffff * 0xffff,
    {
        proof {
            lemma_product_bound(self.width as int, self.width as int, 0xffff, 0xffff);
            assert(self.width * self.width > 0) by (nonlinear_arith)
                requires
                    self.width > 0,
            ;
        }
        (self.width as i64) * (self.width as i64)
    }

    /// The cliff marker at row `x`, column `y` of the tile, times the scale.
    pub fn c1(&self, x: usize, y: usize) -> (v: i64)
        requires
            self.wf(),
            x <= self.width,
            y <= self.width,
        ensures
            v == self.c1_inc.spec_inc_line(x as int, y as int),
    {
        self.c1_inc.inc_line(x, y)
    }

    /// The brightness at row `x`, column `y` of the tile, times the scale.
    pub fn brightness(&self, x: usize, y: usize) -> (v: i64)
        requires
            self.wf(),
            x <= self.width,
            y <= self.width,
        ensures
            v == self.brightness_inc.spec_inc_line(x as int, y as int),
    {
        self.brightness_inc.inc_line(x, y)
    }

    /// The effective height at row `x`, column `y` of the tile, times the
    /// scale.
    pub fn height(&self, x: usize, y: usize) -> (v: i64)
        requires
            self.wf(),
            x <= self.width,
            y <= self.width,
        ensures
            v == self.height_inc.spec_inc_line(x as int, y as int),
    {
        self.height_inc.inc_line(x, y)
    }
}

/// A sampler of the displacement field for the tile of one quad.
pub trait DispProvider: Sized {
    /// The displacement at row `i`, column `j` of the tile.
    spec fn spec_val(&self, i: usize, j: usize) -> Result<i8, LookupError>;

    /// The signal that the brightness distance of the texel at row `i`,
    /// column `j` is made from.
    spec fn spec_val_adjacent(&self, i: usize, j: usize) -> Result<i16, LookupError>;

    /// The sampler moved to the tile of the quad `pos`.
    spec fn spec_update(&self, pos: &LandPosQuad) -> Self;

    /// Where a sampler is moved to does not depend on where it was.
    proof fn lemma_update_forgets(&self, first: &LandPosQuad, then: &LandPosQuad)
        ensures
            self.spec_update(first).spec_update(then) == self.spec_update(then),
    ;

    /// Reads the displacement at row `i`, column `j` of the tile.
    fn val(&self, i: usize, j: usize) -> (r: Result<i8, LookupError>)
        requires
            i <= u16::MAX,
            j <= u16::MAX,
        ensures
            r == self.spec_val(i, j),
    ;

    /// Reads the signal for the brightness distance at row `i`, column `j`
    /// of the tile.
    fn val_adjacent(&self, i: usize, j: usize) -> (r: Result<i16, LookupError>)
        requires
            i <= u16::MAX,
            j <= u16::MAX,
        ensures
            r == self.spec_val_adjacent(i, j),
    ;

    /// Moves the sampler to the tile of the quad `pos`.
    fn update(&mut self, disp0: &[i8], pos: &LandPosQuad)
        ensures
            *final(self) == old(self).spec_update(pos),
    ;
}


/// For a fixed cliff marker and a fixed neighbourhood, a higher cell has no
/// lower effective height, and no effective height lies above the limit.
pub proof fn law_height_clamp_monotone(lower: u16, higher: u16, c_1: u8, land_adj: bool)
    requires
        lower <= higher,
    ensures
        effective_height(lower, c_1, land_adj) <= effective_height(higher, c_1, land_adj),
        effective_height(higher, c_1, land_adj) <= HEIGHT_LIMIT,
{
}

/// The grid is a torus: the quad of a cell in the last row takes its lower
/// corners from the first row, the quad of a cell in the last column takes
/// its right corners from the first column, and every corner is a cell of
/// the grid.
pub proof fn law_quad_wraps(land: &LandscapeFull, i: int, j: int)
    requires
        land.wf(),
        0 <= i < land.spec_width(),
        0 <= j < land.spec_width(),
    ensures
        i == land.spec_width() - 1 ==> *land.quad(i, j).p3 == land.cell(0, j),
        j == land.spec_width() - 1 ==> *land.quad(i, j).p2 == land.cell(i, 0),
        i == land.spec_width() - 1 && j == land.spec_width() - 1 ==> *land.quad(i, j).p4
            == land.cell(0, 0),
        i < land.spec_width() - 1 ==> *land.quad(i, j).p3 == land.cell(i + 1, j),
        j < land.spec_width() - 1 ==> *land.quad(i, j).p2 == land.cell(i, j + 1),
        0 <= wrap(i + 1, land.spec_width() as int) < land.spec_width(),
        0 <= wrap(j + 1, land.spec_width() as int) < land.spec_width(),
        *land.quad(i, j).p1 == land.cell(i, j),
        *land.quad(i, j).p4 == land.cell(
            wrap(i + 1, land.spec_width() as int),
            wrap(j + 1, land.spec_width() as int),
        ),
{
    lemma_torus_step(i, land.spec_width() as int);
    lemma_torus_step(j, land.spec_width() as int);
}

/// At the corners of a tile, what a `LandInc` holds is the corner's value
/// times the scale.
pub proof fn law_inc_line_corners(p1: u16, p2: u16, p3: u16, p4: u16, n: u16)
    requires
        n > 0,
    ensures
        ({
            let inc = LandInc::spec_mk(p1 as int, p2 as int, p3 as int, p4 as int, n as int);
            &&& inc.spec_inc_line(0, 0) == p1 * inc.spec_scale()
            &&& inc.spec_inc_line(n as int, 0) == p3 * inc.spec_scale()
            &&& inc.spec_inc_line(0, n as int) == p2 * inc.spec_scale()
            &&& inc.spec_inc_line(n as int, n as int) == p4 * inc.spec_scale()
        }),
{
    lemma_inc_line_interpolates(p1 as int, p2 as int, p3 as int, p4 as int, n as int, 0, 0);
    lemma_inc_line_interpolates(p1 as int, p2 as int, p3 as int, p4 as int, n as int, n as int, 0);
    lemma_inc_line_interpolates(p1 as int, p2 as int, p3 as int, p4 as int, n as int, 0, n as int);
    lemma_inc_line_interpolates(
        p1 as int,
        p2 as int,
        p3 as int,
        p4 as int,
        n as int,
        n as int,
        n as int,
    );
    law_corner_exactness(p1 as int, p2 as int, p3 as int, p4 as int, n as int);
}

} // verus!
