//! What a level is made of: the lookup tables of its landscape type and the
//! grid of heights.

use vstd::prelude::*;
use crate::pop::error::{TableName, TextureError};
use crate::pop::types::{BinDeserializer, ByteReader};
use crate::pop::units::{TribeConfigRaw, UnitRaw};

verus! {

/// The number of entries of the height-multiplier table.
pub const STATIC_ARRAY_LEN: usize = 1152;

/// The number of entries of the displacement field.
pub const DISP_LEN: usize = 65536;

/// The lookup tables that the texture engine reads.
pub struct GlobeTextureParams {
    pub disp0: Vec<i8>,
    pub cliff0: Vec<u8>,
    pub bigf0: Vec<u8>,
    pub fade0: Vec<u8>,
    pub static_landscape_array: Vec<u16>,
    pub palette: Vec<u8>,
}

/// Entry `h` of the height-multiplier table: flat below 128, a ramp of
/// slope 3 up to 362, flat again above.
pub open spec fn static_multiplier(h: int) -> int {
    if h < 128 {
        0x140
    } else if h < 362 {
        0xd3d - (1152 - h) * 3
    } else {
        0x400
    }
}

impl GlobeTextureParams {
    /// The tables have the sizes that the engine is sure to stay inside.
    pub open spec fn wf(&self) -> bool {
        &&& self.disp0.len() == DISP_LEN
        &&& self.bigf0.len() >= 1152 * 256
        &&& self.cliff0.len() >= 256 * 128
        &&& self.static_landscape_array.len() == STATIC_ARRAY_LEN
        &&& forall|h: int|
            0 <= h < STATIC_ARRAY_LEN ==> #[trigger] self.static_landscape_array[h]
                == static_multiplier(h)
    }

    /// Puts the contents of the five table files of a landscape type together
    /// with the computed height-multiplier table. The displacement file must
    /// hold exactly one field; it is mirrored as `read_disp` says.
    pub fn from_level(
        palette: Vec<u8>,
        disp0: &[u8],
        bigf0: Vec<u8>,
        cliff0: Vec<u8>,
        fade0: Vec<u8>,
    ) -> (r: Result<Self, TextureError>)
        ensures
            disp0.len() == DISP_LEN <==> r is Ok,
            r matches Ok(p) ==> {
                &&& p.palette == palette
                &&& p.bigf0 == bigf0
                &&& p.cliff0 == cliff0
                &&& p.fade0 == fade0
                &&& is_mirror_of(p.disp0@, disp0@)
                &&& p.static_landscape_array.len() == STATIC_ARRAY_LEN
                &&& forall|h: int|
                    0 <= h < STATIC_ARRAY_LEN ==> #[trigger] p.static_landscape_array[h]
                        == static_multiplier(h)
            },
            r matches Err(e) ==> e == (TextureError::InputShape {
                table: TableName::Disp0,
                expected: DISP_LEN,
                actual: disp0.len(),
            }),
    {
        match read_disp(disp0) {
            Ok(disp) => Ok(
                Self {
                    bigf0,
                    cliff0,
                    disp0: disp,
                    fade0,
                    static_landscape_array: Self::make_static_array(),
                    palette,
                },
            ),
            Err(e) => Err(e),
        }
    }

    /// Computes the height-multiplier table.
    pub fn make_static_array() -> (v: Vec<u16>)
        ensures
            v.len() == STATIC_ARRAY_LEN,
            forall|h: int| 0 <= h < STATIC_ARRAY_LEN ==> #[trigger] v[h] == static_multiplier(h),
    {
        let mut v: Vec<u16> = vec![0u16; 1152];
        let mut i: usize = 0;
        while i < 1152
            invariant
                i <= 1152,
                v.len() == 1152,
                forall|h: int| 0 <= h < i ==> #[trigger] v[h] == static_multiplier(h),
            decreases 1152 - i,
        {
            if i < 128 {
                v[i] = 0x140;
            } else if i < 362 {
                v[i] = (0xd3d - (1152 - i) * 3) as u16;
            } else {
                v[i] = 0x400;
            }
            i += 1;
        }
        v
    }
}

/// Turns the bytes of a table file into signed displacements.
pub fn read_bin_i8(buf: &[u8]) -> (v: Vec<i8>)
    ensures
        v.len() == buf.len(),
        forall|k: int| 0 <= k < buf.len() ==> #[trigger] v[k] == buf[k] as i8,
{
    let mut v: Vec<i8> = Vec::new();
    let mut k: usize = 0;
    while k < buf.len()
        invariant
            k <= buf.len(),
            v.len() == k,
            forall|m: int| 0 <= m < k ==> #[trigger] v[m] == buf[m] as i8,
        decreases buf.len() - k,
    {
        v.push(buf[k] as i8);
        k += 1;
    }
    v
}

/// The column that the loaded field takes column `col` from: the outer 127
/// columns of each side change places, the two in the middle stay.
pub open spec fn mirrored_column(col: int) -> int {
    if col < 127 || col > 128 {
        255 - col
    } else {
        col
    }
}

/// Where row `row`, column `col` lies in the displacement field.
pub open spec fn disp_at(row: int, col: int) -> int {
    row * 256 + col
}

/// `disp` is the displacement field that the engine holds for the bytes
/// `raw` of a displacement file: as long, and each row mirrored.
pub open spec fn is_mirror_of(disp: Seq<i8>, raw: Seq<u8>) -> bool {
    &&& disp.len() == DISP_LEN
    &&& raw.len() == DISP_LEN
    &&& forall|row: int, col: int|
        0 <= row < 256 && 0 <= col < 256 ==> #[trigger] disp[disp_at(row, col)] == raw[disp_at(
            row,
            mirrored_column(col),
        )] as i8
}

/// Loads the displacement field from the bytes of its file: reads them as
/// signed and mirrors each row, or rejects a file of another length.
pub fn read_disp(buf: &[u8]) -> (r: Result<Vec<i8>, TextureError>)
    ensures
        buf.len() == DISP_LEN <==> r is Ok,
        r matches Ok(disp) ==> is_mirror_of(disp@, buf@),
        r matches Err(e) ==> e == (TextureError::InputShape {
            table: TableName::Disp0,
            expected: DISP_LEN,
            actual: buf.len(),
        }),
{
    if buf.len() != DISP_LEN {
        return Err(
            TextureError::InputShape {
                table: TableName::Disp0,
                expected: DISP_LEN,
                actual: buf.len(),
            },
        );
    }
    let mut disp = read_bin_i8(buf);
    let width: usize = 256;
    let mut i: usize = 0;
    while i < width
        invariant
            i <= width,
            width == 256,
            disp.len() == DISP_LEN,
            buf.len() == DISP_LEN,
            forall|row: int, col: int|
                0 <= row < 256 && 0 <= col < 256 ==> #[trigger] disp[disp_at(row, col)] == (if row
                    < i {
                    buf[disp_at(row, mirrored_column(col))] as i8
                } else {
                    buf[disp_at(row, col)] as i8
                }),
        decreases width - i,
    {
        let mut j: usize = 0;
        while j < width / 2 - 1
            invariant
                j <= 127,
                i < width,
                width == 256,
                disp.len() == DISP_LEN,
                buf.len() == DISP_LEN,
                forall|row: int, col: int|
                    0 <= row < 256 && 0 <= col < 256 ==> #[trigger] disp[disp_at(row, col)] == (
                    if row < i || (row == i && (col < j || col > 255 - j)) {
                        buf[disp_at(row, mirrored_column(col))] as i8
                    } else {
                        buf[disp_at(row, col)] as i8
                    }),
            decreases 127 - j,
        {
            let n = i * width + j;
            let n1 = i * width + (width - 1) - j;
            let ghost before = disp@;
            let a = disp[n];
            let b = disp[n1];
            disp[n] = b;
            disp[n1] = a;
            proof {
                assert(n == disp_at(i as int, j as int));
                assert(n1 == disp_at(i as int, 255 - j));
                assert forall|row: int, col: int| 0 <= row < 256 && 0 <= col < 256 implies #[trigger] disp[disp_at(
                    row,
                    col,
                )] == (if row < i || (row == i && (col < j + 1 || col > 255 - (j + 1))) {
                    buf[disp_at(row, mirrored_column(col))] as i8
                } else {
                    buf[disp_at(row, col)] as i8
                }) by {
                    if disp_at(row, col) == n {
                        assert(row == i && col == j);
                        assert(before[disp_at(i as int, 255 - j)] == buf[disp_at(i as int, 255 - j)] as i8);
                    } else if disp_at(row, col) == n1 {
                        assert(row == i && col == 255 - j);
                        assert(before[disp_at(i as int, j as int)] == buf[disp_at(i as int, j as int)] as i8);
                    } else {
                        assert(disp[disp_at(row, col)] == before[disp_at(row, col)]);
                    }
                }
            }
            j += 1;
        }
        i += 1;
    }
    Ok(disp)
}

/// `k` brought into `0..n` by going round.
pub open spec fn wrap(k: int, n: int) -> int {
    k % n
}

/// The number that bytes `2k` and `2k + 1` of `buf` spell, low byte first.
pub open spec fn word_le(buf: Seq<u8>, k: int) -> u16 {
    (buf[2 * k] as int + 256 * (buf[2 * k + 1] as int)) as u16
}

/// The row that a height file's row `row` ends up in: all but the two rows
/// in the middle are turned upside down.
pub open spec fn flipped_row(row: int, n: int) -> int {
    if row < n / 2 - 1 || row > n - (n / 2 - 1) - 1 {
        n - 1 - row
    } else {
        row
    }
}

/// The grid of raw heights, `N` rows of `N` columns, closed to a torus.
pub struct Landscape<const N: usize> {
    pub height: [[u16; N]; N],
}

impl<const N: usize> Landscape<N> {
    /// The height at row `i`, column `j`.
    pub open spec fn at(&self, i: int, j: int) -> u16 {
        self.height[i][j]
    }

    /// The height at row `i`, column `j`, both taken round the torus.
    pub open spec fn around(&self, i: int, j: int) -> u16 {
        self.height[wrap(i, N as int)][wrap(j, N as int)]
    }

    /// The cell at row `i`, column `j` is water and one of its eight
    /// neighbours on the torus is land.
    pub open spec fn land_adjacent(&self, i: int, j: int) -> bool {
        &&& self.at(i, j) == 0
        &&& (self.around(i, j - 1) > 0 || self.around(i, j + 1) > 0 || self.around(i - 1, j) > 0
            || self.around(i + 1, j) > 0 || self.around(i + 1, j - 1) > 0 || self.around(
            i + 1,
            j + 1,
        ) > 0 || self.around(i - 1, j - 1) > 0 || self.around(i - 1, j + 1) > 0)
    }

    /// The height that `make_shores` gives the cell at row `i`, column `j`.
    pub open spec fn shore_height(&self, i: int, j: int) -> u16 {
        if self.land_adjacent(i, j) {
            1
        } else {
            self.at(i, j)
        }
    }

    /// The height that a height file gives the cell at row `i`, column `j`
    /// before the rows are flipped: the file runs down the columns, and what
    /// it does not hold is water.
    pub open spec fn stored_height(buf: Seq<u8>, i: int, j: int) -> u16 {
        let k = j * N + i;
        if 2 * k + 1 < buf.len() {
            word_le(buf, k)
        } else {
            0
        }
    }

    /// A grid that is all water.
    pub fn new() -> (s: Self)
        ensures
            forall|i: int, j: int| 0 <= i < N && 0 <= j < N ==> #[trigger] s.at(i, j) == 0,
    {
        Self { height: [[0u16; N]; N] }
    }

    /// The number of cells along one side.
    pub fn land_size(&self) -> (n: usize)
        ensures
            n == N,
    {
        N
    }

    fn put(&mut self, i: usize, j: usize, v: u16)
        requires
            i < N,
            j < N,
        ensures
            forall|r: int, c: int|
                0 <= r < N && 0 <= c < N ==> #[trigger] final(self).at(r, c) == (if r == i && c
                    == j {
                    v
                } else {
                    old(self).at(r, c)
                }),
    {
        self.height[i][j] = v;
    }

    fn flip(&mut self)
        requires
            N >= 2,
        ensures
            forall|i: int, j: int|
                0 <= i < N && 0 <= j < N ==> #[trigger] final(self).at(i, j) == old(self).at(
                    flipped_row(i, N as int),
                    j,
                ),
    {
        let width = N;
        let half: usize = width / 2 - 1;
        let mut i: usize = 0;
        while i < width
            invariant
                i <= width,
                width == N,
                N >= 2,
                half == N / 2 - 1,
                forall|r: int, c: int|
                    0 <= r < N && 0 <= c < N ==> #[trigger] self.at(r, c) == (if c < i {
                        old(self).at(flipped_row(r, N as int), c)
                    } else {
                        old(self).at(r, c)
                    }),
            decreases width - i,
        {
            let mut j: usize = 0;
            while j < half
                invariant
                    j <= half,
                    i < width,
                    width == N,
                    N >= 2,
                    half == N / 2 - 1,
                    forall|r: int, c: int|
                        0 <= r < N && 0 <= c < N ==> #[trigger] self.at(r, c) == (if c < i || (c
                            == i && (r < j || r > N - 1 - j)) {
                            old(self).at(flipped_row(r, N as int), c)
                        } else {
                            old(self).at(r, c)
                        }),
                decreases half - j,
            {
                let n1 = (width - 1) - j;
                let v = self.height[j][i];
                let w = self.height[n1][i];
                let ghost before = *self;
                assert(v == before.at(j as int, i as int));
                assert(w == before.at(n1 as int, i as int));
                self.put(j, i, w);
                let ghost between = *self;
                self.put(n1, i, v);
                proof {
                    assert forall|r: int, c: int| 0 <= r < N && 0 <= c < N implies #[trigger] self.at(
                        r,
                        c,
                    ) == (if c < i || (c == i && (r < j + 1 || r > N - 1 - (j + 1))) {
                        old(self).at(flipped_row(r, N as int), c)
                    } else {
                        old(self).at(r, c)
                    }) by {
                        assert(between.at(r, c) == (if r == j && c == i {
                            w
                        } else {
                            before.at(r, c)
                        }));
                    }
                }
                j += 1;
            }
            i += 1;
        }
    }

    /// Reads the grid from the bytes of a height file: little-endian numbers
    /// that run down the columns; then turns the rows upside down.
    pub fn from_reader(buf: &[u8]) -> (s: Self)
        requires
            N >= 2,
            N * N <= usize::MAX,
        ensures
            forall|i: int, j: int|
                0 <= i < N && 0 <= j < N ==> #[trigger] s.at(i, j) == Self::stored_height(
                    buf@,
                    flipped_row(i, N as int),
                    j,
                ),
    {
        let mut s = Self::new();
        let total: usize = N * N;
        let mut k: usize = 0;
        let mut col: usize = 0;
        let mut row: usize = 0;
        let words: usize = buf.len() / 2;
        while k < total && k < words
            invariant
                words == buf.len() / 2,
                k <= words,
                N >= 2,
                total == N * N,
                k <= total,
                k == col * N + row,
                row < N,
                col <= N,
                col == N ==> row == 0,
                forall|i: int, j: int|
                    0 <= i < N && 0 <= j < N ==> #[trigger] s.at(i, j) == (if j * N + i < k {
                        word_le(buf@, j * N + i)
                    } else {
                        0
                    }),
            decreases total - k,
        {
            proof {
                if col >= N {
                    assert(col * N >= N * N) by (nonlinear_arith)
                        requires
                            col >= N,
                            N >= 0,
                    ;
                }
            }
            let val: u16 = buf[2 * k] as u16 + 256 * (buf[2 * k + 1] as u16);
            s.put(row, col, val);
            proof {
                assert forall|i: int, j: int| 0 <= i < N && 0 <= j < N implies #[trigger] s.at(
                    i,
                    j,
                ) == (if j * N + i < k + 1 {
                    word_le(buf@, j * N + i)
                } else {
                    0
                }) by {
                    lemma_column_major(i, j, row as int, col as int, N as int);
                }
            }
            k += 1;
            row += 1;
            if row == N {
                row = 0;
                col += 1;
                assert((col - 1) * N + N == col * N) by (nonlinear_arith);
            }
        }
        proof {
            assert forall|i: int, j: int| 0 <= i < N && 0 <= j < N implies #[trigger] s.at(i, j)
                == Self::stored_height(buf@, i, j) by {
                lemma_column_major(i, j, row as int, col as int, N as int);
                lemma_cell_in_grid(j, i, N as int);
            }
        }
        let ghost loaded = s;
        s.flip();
        assert forall|i: int, j: int| 0 <= i < N && 0 <= j < N implies #[trigger] s.at(i, j)
            == Self::stored_height(buf@, flipped_row(i, N as int), j) by {
            assert(0 <= flipped_row(i, N as int) < N);
            assert(s.at(i, j) == loaded.at(flipped_row(i, N as int), j));
        }
        s
    }

    /// Tells whether the cell at row `i`, column `j` is water next to land.
    pub fn is_land_adj(&self, i: usize, j: usize) -> (b: bool)
        requires
            i < N,
            j < N,
        ensures
            b == self.land_adjacent(i as int, j as int),
    {
        if self.height[i][j] > 0 {
            return false;
        }
        let i_u = if i + 1 == N {
            0
        } else {
            i + 1
        };
        let j_u = if j + 1 == N {
            0
        } else {
            j + 1
        };
        let i_d = if i == 0 {
            N - 1
        } else {
            i - 1
        };
        let j_d = if j == 0 {
            N - 1
        } else {
            j - 1
        };
        proof {
            lemma_wrap_step(i as int, N as int);
            lemma_wrap_step(j as int, N as int);
        }
        (self.height[i][j_d] > 0) || (self.height[i][j_u] > 0) || (self.height[i_d][j] > 0) || (
        self.height[i_u][j] > 0) || (self.height[i_u][j_d] > 0) || (self.height[i_u][j_u] > 0) || (
        self.height[i_d][j_d] > 0) || (self.height[i_d][j_u] > 0)
    }

    /// A copy in which the water next to land is raised to height 1.
    pub fn make_shores(&self) -> (output: Self)
        ensures
            forall|i: int, j: int|
                0 <= i < N && 0 <= j < N ==> #[trigger] output.at(i, j) == self.shore_height(
                    i,
                    j,
                ),
    {
        let mut output = Self { height: self.height };
        let mut i: usize = 0;
        while i < N
            invariant
                i <= N,
                forall|r: int, c: int|
                    0 <= r < N && 0 <= c < N ==> #[trigger] output.at(r, c) == (if r < i {
                        self.shore_height(r, c)
                    } else {
                        self.at(r, c)
                    }),
            decreases N - i,
        {
            let mut j: usize = 0;
            while j < N
                invariant
                    j <= N,
                    i < N,
                    forall|r: int, c: int|
                        0 <= r < N && 0 <= c < N ==> #[trigger] output.at(r, c) == (if r < i || (r
                            == i && c < j) {
                            self.shore_height(r, c)
                        } else {
                            self.at(r, c)
                        }),
                decreases N - j,
            {
                if self.height[i][j] == 0 && self.is_land_adj(i, j) {
                    output.put(i, j, 1);
                }
                j += 1;
            }
            i += 1;
        }
        output
    }

    /// The heights row by row.
    pub fn to_vec(&self) -> (vec: Vec<u32>)
        requires
            N * N <= usize::MAX,
        ensures
            vec.len() == N * N,
            forall|i: int, j: int|
                0 <= i < N && 0 <= j < N ==> #[trigger] vec[grid_at(i, j, N as int)] == self.at(
                    i,
                    j,
                ),
    {
        let mut vec: Vec<u32> = vec![0u32; N * N];
        let mut i: usize = 0;
        while i < N
            invariant
                i <= N,
                vec.len() == N * N,
                forall|r: int, c: int|
                    0 <= r < i && 0 <= c < N ==> #[trigger] vec[grid_at(r, c, N as int)]
                        == self.at(r, c),
            decreases N - i,
        {
            let mut j: usize = 0;
            while j < N
                invariant
                    j <= N,
                    i < N,
                    vec.len() == N * N,
                    forall|r: int, c: int|
                        (0 <= r < i && 0 <= c < N) || (r == i && 0 <= c < j) ==> #[trigger] vec[grid_at(
                            r,
                            c,
                            N as int,
                        )] == self.at(r, c),
                decreases N - j,
            {
                proof {
                    lemma_cell_in_grid(i as int, j as int, N as int);
                }
                let ghost before = vec@;
                vec[i * N + j] = self.height[i][j] as u32;
                proof {
                    assert forall|r: int, c: int|
                        (0 <= r < i && 0 <= c < N) || (r == i && 0 <= c < j + 1) implies #[trigger] vec[grid_at(
                        r,
                        c,
                        N as int,
                    )] == self.at(r, c) by {
                        lemma_cell_in_grid(r, c, N as int);
                        if grid_at(r, c, N as int) == grid_at(i as int, j as int, N as int) {
                            lemma_grid_at_injective(r, c, i as int, j as int, N as int);
                        } else {
                            assert(vec[grid_at(r, c, N as int)] == before[grid_at(r, c, N as int)]);
                        }
                    }
                }
                j += 1;
            }
            i += 1;
        }
        vec
    }
}

impl<const N: usize> Default for Landscape<N> {
    fn default() -> (s: Self)
        ensures
            forall|i: int, j: int| 0 <= i < N && 0 <= j < N ==> #[trigger] s.at(i, j) == 0,
    {
        Self::new()
    }
}

/// Where row `i`, column `j` lies in a grid of side `n` that is stored row
/// by row.
pub open spec fn grid_at(i: int, j: int, n: int) -> int {
    i * n + j
}

/// A cell of the grid lies inside the row-by-row store.
pub proof fn lemma_cell_in_grid(i: int, j: int, n: int)
    by (nonlinear_arith)
    requires
        0 <= i < n,
        0 <= j < n,
    ensures
        0 <= i * n,
        0 <= i * n + j < n * n,
        i * n + n <= n * n,
{
}

/// Two cells of the grid that lie at the same place of the store are one.
pub proof fn lemma_grid_at_injective(i: int, j: int, k: int, l: int, n: int)
    by (nonlinear_arith)
    requires
        0 <= j < n,
        0 <= l < n,
        i * n + j == k * n + l,
    ensures
        i == k,
        j == l,
{
}

/// In a store that runs down the columns, the cells before column `col`,
/// row `row` are those of the columns to the left and of the rows above.
proof fn lemma_column_major(i: int, j: int, row: int, col: int, n: int)
    by (nonlinear_arith)
    requires
        0 <= i < n,
        0 <= j < n,
        0 <= row < n,
        0 <= col,
    ensures
        j * n + i < col * n + row <==> (j < col || (j == col && i < row)),
        j * n + i == col * n + row <==> (j == col && i == row),
{
}

/// One step up or down on the torus.
proof fn lemma_wrap_step(i: int, n: int)
    requires
        0 <= i < n,
    ensures
        wrap(i, n) == i,
        wrap(i + 1, n) == (if i + 1 == n {
            0
        } else {
            i + 1
        }),
        wrap(i - 1, n) == (if i == 0 {
            n - 1
        } else {
            i - 1
        }),
{
    vstd::arithmetic::div_mod::lemma_small_mod(i as nat, n as nat);
    if i + 1 == n {
        vstd::arithmetic::div_mod::lemma_mod_self_0(n);
    } else {
        vstd::arithmetic::div_mod::lemma_small_mod((i + 1) as nat, n as nat);
    }
    if i == 0 {
        vstd::arithmetic::div_mod::lemma_mod_add_multiples_vanish(-1, n);
        vstd::arithmetic::div_mod::lemma_small_mod((n - 1) as nat, n as nat);
    } else {
        vstd::arithmetic::div_mod::lemma_small_mod((i - 1) as nat, n as nat);
    }
}


/// In the loaded displacement field, each of the 127 columns on the left of
/// a row holds what the file holds at the same distance from the right end
/// of the row.
pub proof fn law_field_is_mirrored(disp: Seq<i8>, raw: Seq<u8>, row: int, col: int)
    requires
        is_mirror_of(disp, raw),
        0 <= row < 256,
        0 <= col < 127,
    ensures
        disp[row * 256 + col] == raw[row * 256 + (255 - col)] as i8,
        disp[row * 256 + (255 - col)] == raw[row * 256 + col] as i8,
{
    assert(disp[disp_at(row, col)] == raw[disp_at(row, mirrored_column(col))] as i8);
    assert(disp[disp_at(row, 255 - col)] == raw[disp_at(row, mirrored_column(255 - col))] as i8);
}


/// What `str::to_uppercase` of the standard library makes of a text.
pub uninterp spec fn uppercase(text: Seq<char>) -> Seq<char>;

/// Calls `str::to_uppercase`: the text with every letter replaced by its
/// upper case form, as the standard library maps it.
#[verifier::external_body]
fn to_uppercase(text: &str) -> (upper: String)
    ensures
        upper@ == uppercase(text@),
{
    text.to_uppercase()
}

/// Calls `String::push_str`: appends `tail` to `text`.
#[verifier::external_body]
fn push_str(text: &mut String, tail: &str)
    ensures
        final(text)@ == old(text)@ + tail@,
{
    text.push_str(tail)
}

/// Calls `String::push`: appends the character `c` to `text`.
#[verifier::external_body]
fn push_char(text: &mut String, c: char)
    ensures
        final(text)@ == old(text)@.push(c),
{
    text.push(c)
}

/// The digit `d` as a character.
pub open spec fn digit_char(d: int) -> char {
    (0x30 + d) as u8 as char
}

/// A number below 1000 as three digits.
pub open spec fn three_digits(num: int) -> Seq<char> {
    seq![digit_char(num / 100), digit_char((num / 10) % 10), digit_char(num % 10)]
}

/// The path of the file `name` in the directory `base`. Paths are texts
/// whose parts are separated by `/`.
pub open spec fn based_path(base: Seq<char>, name: Seq<char>) -> Seq<char> {
    base + seq!['/'] + name
}

/// The name `prefix`, `key`, `suffix` in one.
pub open spec fn keyed_name(prefix: Seq<char>, key: Seq<char>, suffix: Seq<char>) -> Seq<char> {
    prefix + key + suffix
}

fn mk_based_path(base: &str, s: String) -> (path: String)
    ensures
        path@ == based_path(base@, s@),
{
    let mut path = String::new();
    push_str(&mut path, base);
    push_char(&mut path, '/');
    push_str(&mut path, s.as_str());
    assert(path@ =~= based_path(base@, s@));
    path
}

fn mk_keyed_name(prefix: &str, key: &str, suffix: &str) -> (name: String)
    ensures
        name@ == keyed_name(prefix@, key@, suffix@),
{
    let mut name = String::new();
    push_str(&mut name, prefix);
    push_str(&mut name, key);
    push_str(&mut name, suffix);
    assert(name@ =~= keyed_name(prefix@, key@, suffix@));
    name
}

fn mk_numbered_name(prefix: &str, num: u8, suffix: &str) -> (name: String)
    ensures
        name@ == keyed_name(prefix@, three_digits(num as int), suffix@),
{
    let mut name = String::new();
    push_str(&mut name, prefix);
    push_char(&mut name, (0x30 + num / 100) as char);
    push_char(&mut name, (0x30 + (num / 10) % 10) as char);
    push_char(&mut name, (0x30 + num % 10) as char);
    push_str(&mut name, suffix);
    assert(name@ =~= keyed_name(prefix@, three_digits(num as int), suffix@));
    name
}

/// The files of a landscape type.
pub struct LevelPaths {
    pub palette: String,
    pub disp0: String,
    pub bigf0: String,
    pub cliff0: String,
    pub fade0: String,
    pub bl320: String,
    pub bl160: String,
}

impl LevelPaths {
    /// The files of the landscape type `key` in the directory `base`. The
    /// names of the tables hold the key as it is, those of the tile sets
    /// hold it in upper case.
    pub fn from_base(base: &str, key: &str) -> (paths: Self)
        ensures
            paths.palette@ == based_path(base@, keyed_name("pal0-"@, key@, ".dat"@)),
            paths.disp0@ == based_path(base@, keyed_name("disp0-"@, key@, ".dat"@)),
            paths.bigf0@ == based_path(base@, keyed_name("bigf0-"@, key@, ".dat"@)),
            paths.cliff0@ == based_path(base@, keyed_name("cliff0-"@, key@, ".dat"@)),
            paths.fade0@ == based_path(base@, keyed_name("fade0-"@, key@, ".dat"@)),
            paths.bl320@ == based_path(base@, keyed_name("BL320-"@, uppercase(key@), ".DAT"@)),
            paths.bl160@ == based_path(base@, keyed_name("BL160-"@, uppercase(key@), ".DAT"@)),
    {
        let key_upper = to_uppercase(key);
        Self::from_keys(base, key, key_upper.as_str())
    }

    /// The files of a landscape type in the directory `base`, for the key
    /// of the type as it is and in upper case.
    pub fn from_keys(base: &str, key: &str, key_upper: &str) -> (paths: Self)
        ensures
            paths.palette@ == based_path(base@, keyed_name("pal0-"@, key@, ".dat"@)),
            paths.disp0@ == based_path(base@, keyed_name("disp0-"@, key@, ".dat"@)),
            paths.bigf0@ == based_path(base@, keyed_name("bigf0-"@, key@, ".dat"@)),
            paths.cliff0@ == based_path(base@, keyed_name("cliff0-"@, key@, ".dat"@)),
            paths.fade0@ == based_path(base@, keyed_name("fade0-"@, key@, ".dat"@)),
            paths.bl320@ == based_path(base@, keyed_name("BL320-"@, key_upper@, ".DAT"@)),
            paths.bl160@ == based_path(base@, keyed_name("BL160-"@, key_upper@, ".DAT"@)),
    {
        Self {
            palette: mk_based_path(base, mk_keyed_name("pal0-", key, ".dat")),
            disp0: mk_based_path(base, mk_keyed_name("disp0-", key, ".dat")),
            bigf0: mk_based_path(base, mk_keyed_name("bigf0-", key, ".dat")),
            cliff0: mk_based_path(base, mk_keyed_name("cliff0-", key, ".dat")),
            fade0: mk_based_path(base, mk_keyed_name("fade0-", key, ".dat")),
            bl320: mk_based_path(base, mk_keyed_name("BL320-", key_upper, ".DAT")),
            bl160: mk_based_path(base, mk_keyed_name("BL160-", key_upper, ".DAT")),
        }
    }

    /// The files of the landscape type `key` in the directory `data` of the
    /// game's directory `base`.
    pub fn from_default_dir(base: &str, key: &str) -> (paths: Self)
        ensures
            paths.palette@ == based_path(
                based_path(base@, "data"@),
                keyed_name("pal0-"@, key@, ".dat"@),
            ),
            paths.disp0@ == based_path(
                based_path(base@, "data"@),
                keyed_name("disp0-"@, key@, ".dat"@),
            ),
            paths.bigf0@ == based_path(
                based_path(base@, "data"@),
                keyed_name("bigf0-"@, key@, ".dat"@),
            ),
            paths.cliff0@ == based_path(
                based_path(base@, "data"@),
                keyed_name("cliff0-"@, key@, ".dat"@),
            ),
            paths.fade0@ == based_path(
                based_path(base@, "data"@),
                keyed_name("fade0-"@, key@, ".dat"@),
            ),
            paths.bl320@ == based_path(
                based_path(base@, "data"@),
                keyed_name("BL320-"@, uppercase(key@), ".DAT"@),
            ),
            paths.bl160@ == based_path(
                based_path(base@, "data"@),
                keyed_name("BL160-"@, uppercase(key@), ".DAT"@),
            ),
    {
        let data_dir = mk_based_path(base, "data".to_owned());
        Self::from_base(data_dir.as_str(), key)
    }

    /// The file of the heights and units of level `num`.
    pub fn dat_path(base: &str, num: u8) -> (path: String)
        ensures
            path@ == based_path(base@, keyed_name("levl2"@, three_digits(num as int), ".dat"@)),
    {
        mk_based_path(base, mk_numbered_name("levl2", num, ".dat"))
    }

    /// The file of the header of level `num`.
    pub fn hdr_path(base: &str, num: u8) -> (path: String)
        ensures
            path@ == based_path(base@, keyed_name("levl2"@, three_digits(num as int), ".hdr"@)),
    {
        mk_based_path(base, mk_numbered_name("levl2", num, ".hdr"))
    }
}

/// The files of a bank of objects.
pub struct ObjectPaths {
    pub objs0_dat: String,
    pub objs0_ver: String,
    pub pnts0: String,
    pub facs0: String,
    pub morph0: String,
    pub shapes: String,
}

impl ObjectPaths {
    /// The files of the bank `key` in the directory `base`.
    pub fn from_base(base: &str, key: &str) -> (paths: Self)
        ensures
            paths.objs0_dat@ == based_path(base@, keyed_name("OBJS0-"@, key@, ".DAT"@)),
            paths.objs0_ver@ == based_path(base@, keyed_name("objs0-"@, key@, ".ver"@)),
            paths.pnts0@ == based_path(base@, keyed_name("PNTS0-"@, key@, ".DAT"@)),
            paths.facs0@ == based_path(base@, keyed_name("FACS0-"@, key@, ".DAT"@)),
            paths.morph0@ == based_path(base@, keyed_name("morph0-"@, key@, ".dat"@)),
            paths.shapes@ == based_path(base@, "SHAPES.DAT"@),
    {
        Self {
            objs0_dat: mk_based_path(base, mk_keyed_name("OBJS0-", key, ".DAT")),
            objs0_ver: mk_based_path(base, mk_keyed_name("objs0-", key, ".ver")),
            pnts0: mk_based_path(base, mk_keyed_name("PNTS0-", key, ".DAT")),
            facs0: mk_based_path(base, mk_keyed_name("FACS0-", key, ".DAT")),
            morph0: mk_based_path(base, mk_keyed_name("morph0-", key, ".dat")),
            shapes: mk_based_path(base, "SHAPES.DAT".to_owned()),
        }
    }

    /// The files of the bank `key` in the directory `objects` of the game's
    /// directory `base`.
    pub fn from_default_dir(base: &str, key: &str) -> (paths: Self)
        ensures
            paths.objs0_dat@ == based_path(
                based_path(base@, "objects"@),
                keyed_name("OBJS0-"@, key@, ".DAT"@),
            ),
            paths.objs0_ver@ == based_path(
                based_path(base@, "objects"@),
                keyed_name("objs0-"@, key@, ".ver"@),
            ),
            paths.pnts0@ == based_path(
                based_path(base@, "objects"@),
                keyed_name("PNTS0-"@, key@, ".DAT"@),
            ),
            paths.facs0@ == based_path(
                based_path(base@, "objects"@),
                keyed_name("FACS0-"@, key@, ".DAT"@),
            ),
            paths.morph0@ == based_path(
                based_path(base@, "objects"@),
                keyed_name("morph0-"@, key@, ".dat"@),
            ),
            paths.shapes@ == based_path(based_path(base@, "objects"@), "SHAPES.DAT"@),
    {
        let data_dir = mk_based_path(base, "objects".to_owned());
        Self::from_base(data_dir.as_str(), key)
    }
}

/// The three numbers of a level's sunlight.
#[derive(Debug, Copy, Clone)]
pub struct Sunlight {
    pub v1: u8,
    pub v2: u8,
    pub v3: u8,
}

impl Sunlight {
    pub fn new(v1: u8, v2: u8, v3: u8) -> (s: Self)
        ensures
            s.v1 == v1,
            s.v2 == v2,
            s.v3 == v3,
    {
        Sunlight { v1, v2, v3 }
    }

    /// Reads the next three bytes.
    pub fn from_reader(reader: &mut ByteReader) -> (s: Self)
        requires
            old(reader).wf(),
            old(reader).rest().len() >= 3,
        ensures
            final(reader).wf(),
            final(reader).data == old(reader).data,
            final(reader).pos == old(reader).pos + 3,
            s.v1 == old(reader).rest()[0],
            s.v2 == old(reader).rest()[1],
            s.v3 == old(reader).rest()[2],
    {
        let buf = match reader.read_exact(3) {
            Some(b) => b,
            None => vstd::pervasive::unreached(),
        };
        Self::new(buf[0], buf[1], buf[2])
    }
}

/// Where the settings of the tribes start in a level file: behind the
/// heights and three more blocks of the landscape.
pub const LEVEL_TRIBES_AT: usize = 0x14000;

/// The number of tribes of a level.
pub const LEVEL_TRIBES: usize = 4;

/// Where the units start in a level file.
pub const LEVEL_UNITS_AT: usize = 0x14043;

/// All that is loaded of a level.
pub struct LevelRes {
    pub paths: LevelPaths,
    pub params: GlobeTextureParams,
    pub landscape: Landscape<128>,
    pub tribes: Vec<TribeConfigRaw>,
    pub sunlight: Sunlight,
    pub units: Vec<UnitRaw>,
}

impl LevelRes {
    /// Puts a level together from the files of its landscape type, its
    /// tables and the contents of its level file: the heights at the start
    /// of the file, the four tribes, the sunlight and the units behind the
    /// blocks of the landscape.
    pub fn from_data(paths: LevelPaths, params: GlobeTextureParams, level: &[u8]) -> (r: Option<
        Self,
    >)
        ensures
            r is Some <==> level@.len() >= LEVEL_UNITS_AT,
            r matches Some(res) ==> {
                &&& res.paths == paths
                &&& res.params == params
                &&& forall|i: int, j: int|
                    0 <= i < 128 && 0 <= j < 128 ==> #[trigger] res.landscape.at(i, j) == Landscape::<
                        128,
                    >::stored_height(level@, flipped_row(i, 128), j)
                &&& res.tribes.len() == LEVEL_TRIBES
                &&& forall|k: int|
                    0 <= k < LEVEL_TRIBES ==> (#[trigger] res.tribes[k]).data@ == level@.subrange(
                        LEVEL_TRIBES_AT + 16 * k,
                        LEVEL_TRIBES_AT + 16 * k + 16,
                    )
                &&& res.sunlight.v1 == level@[LEVEL_TRIBES_AT + 64]
                &&& res.sunlight.v2 == level@[LEVEL_TRIBES_AT + 65]
                &&& res.sunlight.v3 == level@[LEVEL_TRIBES_AT + 66]
                &&& res.units.len() == (level@.len() - LEVEL_UNITS_AT) / 55
                &&& forall|k: int|
                    0 <= k < res.units.len() ==> UnitRaw::decodes(
                        level@.subrange(LEVEL_UNITS_AT + 55 * k, LEVEL_UNITS_AT + 55 * k + 55),
                        &#[trigger] res.units[k],
                    )
            },
    {
        if level.len() < LEVEL_UNITS_AT {
            return None;
        }
        let landscape = Landscape::<128>::from_reader(level);
        let mut reader = ByteReader { data: level, pos: 0x14000 };
        let ghost tribes_rest = reader.rest();
        let mut tribes: Vec<TribeConfigRaw> = Vec::new();
        let mut k: usize = 0;
        while k < 4
            invariant
                k <= 4,
                reader.wf(),
                reader.data == level,
                level@.len() >= LEVEL_UNITS_AT,
                reader.pos == LEVEL_TRIBES_AT + 16 * k,
                tribes.len() == k,
                forall|m: int|
                    0 <= m < k ==> (#[trigger] tribes[m]).data@ == level@.subrange(
                        LEVEL_TRIBES_AT + 16 * m,
                        LEVEL_TRIBES_AT + 16 * m + 16,
                    ),
            decreases 4 - k,
        {
            let ghost rest = reader.rest();
            let tribe = match TribeConfigRaw::from_reader(&mut reader) {
                Some(t) => t,
                None => vstd::pervasive::unreached(),
            };
            proof {
                assert(rest.take(16).subrange(0, 16) =~= level@.subrange(
                    LEVEL_TRIBES_AT + 16 * k,
                    LEVEL_TRIBES_AT + 16 * k + 16,
                ));
            }
            tribes.push(tribe);
            k += 1;
        }
        let sunlight = Sunlight::from_reader(&mut reader);
        let ghost units_rest = reader.rest();
        let units = UnitRaw::from_reader_vec(&mut reader);
        proof {
            assert forall|m: int| 0 <= m < units.len() implies UnitRaw::decodes(
                level@.subrange(LEVEL_UNITS_AT + 55 * m, LEVEL_UNITS_AT + 55 * m + 55),
                &#[trigger] units[m],
            ) by {
                assert(crate::pop::types::record_bytes(units_rest, 55, m) =~= level@.subrange(
                    LEVEL_UNITS_AT + 55 * m,
                    LEVEL_UNITS_AT + 55 * m + 55,
                ));
            }
        }
        Some(LevelRes { paths, params, landscape, tribes, sunlight, units })
    }
}

/// The letter of landscape type `t`: the digits, then the alphabet.
pub open spec fn type_letter(t: u8) -> char {
    if t < 10 {
        (0x30 + t) as u8 as char
    } else {
        (0x61 + (t - 10)) as u8 as char
    }
}

/// Where the landscape type stands in the header of a level.
pub const HDR_TYPE_AT: usize = 96;

/// The number of landscape types.
pub const LANDSCAPE_TYPES: u8 = 36;

/// The key of the landscape type that the header of a level names.
pub fn read_landscape_type(hdr_data: &[u8]) -> (key: String)
    requires
        hdr_data@.len() > HDR_TYPE_AT,
        hdr_data@[HDR_TYPE_AT as int] < LANDSCAPE_TYPES,
    ensures
        key@ == seq![type_letter(hdr_data@[HDR_TYPE_AT as int])],
{
    let type_int = hdr_data[96];
    let letter: char = if type_int <= 9 {
        (0x30 + type_int) as char
    } else {
        (0x61 + (type_int - 10)) as char
    };
    let mut key = String::new();
    push_char(&mut key, letter);
    assert(key@ =~= seq![type_letter(hdr_data@[HDR_TYPE_AT as int])]);
    key
}

/// The file of level `num` in the directory `base`, and the key of its
/// landscape type as the contents of its header say.
pub fn read_level(base: &str, num: u8, hdr_data: &[u8]) -> (r: (String, String))
    requires
        hdr_data@.len() > HDR_TYPE_AT,
        hdr_data@[HDR_TYPE_AT as int] < LANDSCAPE_TYPES,
    ensures
        r.0@ == based_path(base@, keyed_name("levl2"@, three_digits(num as int), ".dat"@)),
        r.1@ == seq![type_letter(hdr_data@[HDR_TYPE_AT as int])],
{
    let dat_path = LevelPaths::dat_path(base, num);
    let s = read_landscape_type(hdr_data);
    (dat_path, s)
}

/// The contents of a palette file as a palette.
pub fn read_pal(palette: &[u8]) -> (pal: Vec<u8>)
    ensures
        pal@ == palette@,
{
    let mut pal: Vec<u8> = Vec::new();
    let mut k: usize = 0;
    while k < palette.len()
        invariant
            k <= palette.len(),
            pal@ == palette@.take(k as int),
        decreases palette.len() - k,
    {
        pal.push(palette[k]);
        assert(pal@ =~= palette@.take(k + 1));
        k += 1;
    }
    assert(palette@.take(palette.len() as int) =~= palette@);
    pal
}

/// The numbers that the bytes of a file spell two by two, low byte first.
/// A last byte without a partner does not count.
pub fn read_bin16(buf: &[u8]) -> (vec: Vec<u16>)
    ensures
        vec.len() == buf@.len() / 2,
        forall|k: int| 0 <= k < vec.len() ==> #[trigger] vec[k] == word_le(buf@, k),
{
    let len = buf.len();
    let count = len / 2;
    let mut vec: Vec<u16> = Vec::new();
    let mut i: usize = 0;
    while i < count
        invariant
            i <= count,
            len == buf@.len(),
            count == buf@.len() / 2,
            vec.len() == i,
            forall|k: int| 0 <= k < i ==> #[trigger] vec[k] == word_le(buf@, k),
        decreases count - i,
    {
        vec.push(buf[2 * i] as u16 + 256 * (buf[2 * i + 1] as u16));
        i += 1;
    }
    vec
}

} // verus!
