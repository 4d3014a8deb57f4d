//! Diagnostic textures: the displacement field and the rows of `bigf0` as
//! images.
//!
//! The displacement field holds 256 rows of 256 signed bytes. A row is made
//! of eight blocks of 32 bytes, and eight rows of blocks make up what a
//! landscape tile of 32 by 32 texels reads. A texture of a smaller tile reads
//! every fourth byte of every fourth row.

use vstd::prelude::*;
use crate::pop::error::{located, lookup, spec_located, spec_lookup, LookupError, TableName, TextureError};
use crate::pop::landscape::land::{lemma_pixel_place, trunc_div};
use crate::pop::level::{GlobeTextureParams, DISP_LEN};
use crate::pop::types::{Image, ImageStorage};

verus! {

/// The side of the quarter view of the displacement field.
pub const QUARTER_SIDE: usize = 64;

/// The error for a displacement field that is too short.
pub open spec fn short_disp(len: usize) -> TextureError {
    TextureError::InputShape { table: TableName::Disp0, expected: DISP_LEN, actual: len }
}

fn check_disp(params: &GlobeTextureParams) -> (r: Result<(), TextureError>)
    ensures
        params.disp0.len() >= DISP_LEN <==> r is Ok,
        r matches Err(e) ==> e == short_disp(params.disp0.len()),
{
    if params.disp0.len() < DISP_LEN {
        Err(
            TextureError::InputShape {
                table: TableName::Disp0,
                expected: DISP_LEN,
                actual: params.disp0.len(),
            },
        )
    } else {
        Ok(())
    }
}

/// `r` is what dumping the displacement field comes to: its 65536 entries
/// read as unsigned, or the complaint that the field is too short.
pub open spec fn disp_dump_is(params: &GlobeTextureParams, r: Result<Vec<u8>, TextureError>) -> bool {
    match r {
        Err(e) => params.disp0.len() < DISP_LEN && e == short_disp(params.disp0.len()),
        Ok(texture) => {
            &&& params.disp0.len() >= DISP_LEN
            &&& texture.len() == DISP_LEN
            &&& forall|k: int| 0 <= k < DISP_LEN ==> #[trigger] texture[k] == params.disp0[k] as u8
        },
    }
}

/// The dump of the displacement field is determined by the field: whatever
/// meets its description holds the same bytes, or is the same complaint.
pub proof fn law_disp_dump_determined(
    params: &GlobeTextureParams,
    first: Result<Vec<u8>, TextureError>,
    second: Result<Vec<u8>, TextureError>,
)
    requires
        disp_dump_is(params, first),
        disp_dump_is(params, second),
    ensures
        match (first, second) {
            (Ok(a), Ok(b)) => a@ == b@,
            (Err(e), Err(f)) => e == f,
            _ => false,
        },
{
    if let (Ok(a), Ok(b)) = (first, second) {
        assert(a@ =~= b@);
    }
}

/// The displacement field as 256 by 256 bytes, each displacement read as
/// unsigned.
pub fn texture_disp_full(params: &GlobeTextureParams) -> (r: Result<Vec<u8>, TextureError>)
    ensures
        disp_dump_is(params, r),
{
    match check_disp(params) {
        Err(e) => {
            return Err(e);
        },
        Ok(()) => {},
    }
    let width: usize = 256;
    let mut texture: Vec<u8> = vec![0u8; width * width];
    let mut i: usize = 0;
    while i < width
        invariant
            i <= width,
            width == 256,
            texture.len() == DISP_LEN,
            params.disp0.len() >= DISP_LEN,
            forall|k: int| 0 <= k < i * 256 ==> #[trigger] texture[k] == params.disp0[k] as u8,
        decreases width - i,
    {
        let mut j: usize = 0;
        while j < width
            invariant
                j <= width,
                i < width,
                width == 256,
                texture.len() == DISP_LEN,
                params.disp0.len() >= DISP_LEN,
                forall|k: int|
                    0 <= k < i * 256 + j ==> #[trigger] texture[k] == params.disp0[k] as u8,
            decreases width - j,
        {
            let offset_param = i * 0x100;
            let disp_val = params.disp0[offset_param + j];
            texture[i * width + j] = disp_val as u8;
            j += 1;
        }
        i += 1;
    }
    Ok(texture)
}

/// Where the quarter view takes its row `row`, column `col` from: the blocks
/// of the first eight rows of the field, of each block every fourth byte of
/// every fourth row.
pub open spec fn quarter_source(row: int, col: int) -> int {
    (row / 8) * 0x100 + (col / 8) * 0x20 + (row % 8) * 0x400 + (col % 8) * 4
}

/// Where row `row`, column `col` lies in the quarter view.
pub open spec fn quarter_at(row: int, col: int) -> int {
    row * 64 + col
}

/// The quarter view of the displacement field: 8 by 8 blocks of 8 by 8
/// bytes, each displacement read as unsigned.
pub fn texture_disp_quarter(params: &GlobeTextureParams) -> (r: Result<Vec<u8>, TextureError>)
    ensures
        params.disp0.len() >= DISP_LEN <==> r is Ok,
        r matches Err(e) ==> e == short_disp(params.disp0.len()),
        r matches Ok(texture) ==> texture.len() == QUARTER_SIDE * QUARTER_SIDE && forall|
            row: int,
            col: int,
        |
            0 <= row < QUARTER_SIDE && 0 <= col < QUARTER_SIDE ==> #[trigger] texture[quarter_at(
                row,
                col,
            )] == params.disp0[quarter_source(row, col)] as u8,
{
    match check_disp(params) {
        Err(e) => {
            return Err(e);
        },
        Ok(()) => {},
    }
    let points: usize = 8;
    let width: usize = 8 * points;
    let mut texture: Vec<u8> = vec![0u8; width * width];
    let mut row: usize = 0;
    while row < width
        invariant
            row <= width,
            width == 64,
            texture.len() == 64 * 64,
            params.disp0.len() >= DISP_LEN,
            forall|r: int, c: int|
                0 <= r < row && 0 <= c < 64 ==> #[trigger] texture[quarter_at(r, c)]
                    == params.disp0[quarter_source(r, c)] as u8,
        decreases width - row,
    {
        let i = row / 8;
        let v = row % 8;
        let mut col: usize = 0;
        while col < width
            invariant
                col <= width,
                row < width,
                width == 64,
                i == row / 8,
                v == row % 8,
                texture.len() == 64 * 64,
                params.disp0.len() >= DISP_LEN,
                forall|r: int, c: int|
                    0 <= r < 64 && 0 <= c < 64 && (r < row || (r == row && c < col))
                        ==> #[trigger] texture[quarter_at(r, c)] == params.disp0[quarter_source(
                        r,
                        c,
                    )] as u8,
            decreases width - col,
        {
            let j = col / 8;
            let h = col % 8;
            let index = i * width * 8 + j * 8;
            let from_i: usize = i << 8;
            let from_j: usize = j << 5;
            let from_v: usize = v << 10;
            assert(from_i == i * 0x100 && from_j == j * 0x20 && from_v == v * 0x400)
                by (bit_vector)
                requires
                    from_i == i << 8,
                    from_j == j << 5,
                    from_v == v << 10,
                    i < 8,
                    j < 8,
                    v < 8,
            ;
            let disp_index: usize = from_i + from_j + from_v;
            let disp_val = params.disp0[disp_index + h * 4];
            let ghost before = texture@;
            texture[index + (v * width) + h] = disp_val as u8;
            assert(index + (v * width) + h == quarter_at(row as int, col as int));
            col += 1;
        }
        row += 1;
    }
    Ok(texture)
}

/// The row of `bigf0` for one height as an image of 256 by 256 pixels: row
/// `i` of the image is filled with entry `i` of the row of the table.
pub fn texture_bigf0(height: u16, params: &GlobeTextureParams) -> (r: Result<Image, TextureError>)
    ensures
        params.bigf0.len() >= height * 256 + 256 <==> r is Ok,
        r matches Err(e) ==> e == (TextureError::InputShape {
            table: TableName::Bigf0,
            expected: (height * 256 + 256) as usize,
            actual: params.bigf0.len(),
        }),
        r matches Ok(img) ==> img.width == 256 && img.height == 256 && img.wf() && forall|
            x: int,
            y: int,
        |
            0 <= x < 256 && 0 <= y < 256 ==> #[trigger] img.pixel(x, y) == params.bigf0[height
                * 256 + y],
{
    let needed: usize = height as usize * 256 + 256;
    if params.bigf0.len() < needed {
        return Err(
            TextureError::InputShape {
                table: TableName::Bigf0,
                expected: needed,
                actual: params.bigf0.len(),
            },
        );
    }
    let width: usize = 256;
    let mut img = Image::allocate(width, width);
    let mut i: usize = 0;
    while i < width
        invariant
            i <= width,
            width == 256,
            img.width == 256,
            img.height == 256,
            img.wf(),
            params.bigf0.len() >= height * 256 + 256,
            forall|x: int, y: int|
                0 <= x < 256 && 0 <= y < i ==> #[trigger] img.pixel(x, y) == params.bigf0[height
                    * 256 + y],
        decreases width - i,
    {
        let mut j: usize = 0;
        while j < width
            invariant
                j <= width,
                i < width,
                width == 256,
                img.width == 256,
                img.height == 256,
                img.wf(),
                params.bigf0.len() >= height * 256 + 256,
                forall|x: int, y: int|
                    0 <= x < 256 && 0 <= y < 256 && (y < i || (y == i && x < j))
                        ==> #[trigger] img.pixel(x, y) == params.bigf0[height * 256 + y],
            decreases width - j,
        {
            let height_param_x256: usize = height as usize * 256;
            let ghost before = img;
            proof {
                lemma_pixel_place(256, 256, j as int, i as int, j as int, i as int);
            }
            img.set_pixel(j, i, params.bigf0[height_param_x256 + i]);
            proof {
                assert forall|x: int, y: int|
                    0 <= x < 256 && 0 <= y < 256 && (y < i || (y == i && x < j
                        + 1)) implies #[trigger] img.pixel(x, y) == params.bigf0[height * 256
                    + y] by {
                    lemma_pixel_place(256, 256, x, y, j as int, i as int);
                    if x == j && y == i {
                    } else {
                        assert(img.pixel(x, y) == before.pixel(x, y));
                    }
                }
            }
            j += 1;
        }
        i += 1;
    }
    Ok(img)
}

/// None of the displacements of the field is -128.
pub open spec fn without_lowest(disp0: Seq<i8>) -> bool {
    forall|k: int| 0 <= k < DISP_LEN && k < disp0.len() ==> #[trigger] disp0[k] != -128
}

/// Divides a displacement, rounding towards zero.
fn divide(raw: i8, by: i8) -> (q: i8)
    requires
        by != 0,
        !(raw == -128 && by == -1),
    ensures
        q == trunc_div(raw as int, by as int),
{
    let a: i32 = if raw < 0 {
        -(raw as i32)
    } else {
        raw as i32
    };
    let b: i32 = if by < 0 {
        -(by as i32)
    } else {
        by as i32
    };
    let q: i32 = a / b;
    proof {
        crate::pop::landscape::land::lemma_quotient_bounds(a as int, b as int, 0, 128);
        if raw == -128 {
            if by < 0 {
                crate::pop::landscape::land::lemma_quotient_bounds(a as int, b as int, 0, 64);
            }
        } else {
            crate::pop::landscape::land::lemma_quotient_bounds(a as int, b as int, 0, 127);
        }
    }
    if (raw < 0) != (by < 0) {
        (-q) as i8
    } else {
        q as i8
    }
}

/// Entry `k` of the view of one row of `bigf0` through the displacement
/// field: the entry of the row that the displacement, divided and shifted,
/// points at; or the lookup that fails.
pub open spec fn bigf0_disp_texel(
    height: u16,
    disp_div: i8,
    disp_add: u8,
    params: &GlobeTextureParams,
    k: int,
) -> Result<u8, LookupError> {
    spec_lookup(
        params.bigf0@,
        TableName::Bigf0,
        height * 256 + trunc_div(params.disp0[k] as int, disp_div as int) + disp_add,
    )
}

/// The first failed lookup among the entries from `k` on, with the column
/// and the row of its pixel.
pub open spec fn bigf0_disp_error(
    height: u16,
    disp_div: i8,
    disp_add: u8,
    params: &GlobeTextureParams,
    k: int,
) -> Option<TextureError>
    decreases DISP_LEN - k,
{
    if k < 0 || k >= DISP_LEN {
        None
    } else {
        match bigf0_disp_texel(height, disp_div, disp_add, params, k) {
            Err(e) => Some(spec_located(e, (k % 256) as usize, (k / 256) as usize)),
            Ok(_) => bigf0_disp_error(height, disp_div, disp_add, params, k + 1),
        }
    }
}

/// The row of `bigf0` for one height, seen through the displacement field:
/// 256 by 256 bytes, each the entry of the row that the displacement at its
/// place, divided by `disp_div` and shifted by `disp_add`, points at.
pub fn texture_bigf0_disp(height: u16, disp_div: i8, disp_add: u8, params: &GlobeTextureParams) -> (r:
    Result<Vec<u8>, TextureError>)
    requires
        disp_div != 0,
        disp_div == -1 ==> without_lowest(params.disp0@),
    ensures
        params.disp0.len() < DISP_LEN ==> r == Err::<Vec<u8>, TextureError>(
            short_disp(params.disp0.len()),
        ),
        params.disp0.len() >= DISP_LEN ==> match r {
            Err(e) => bigf0_disp_error(height, disp_div, disp_add, params, 0) == Some(e),
            Ok(texture) => {
                &&& bigf0_disp_error(height, disp_div, disp_add, params, 0) is None
                &&& texture.len() == DISP_LEN
                &&& forall|k: int|
                    0 <= k < DISP_LEN ==> bigf0_disp_texel(height, disp_div, disp_add, params, k)
                        == Ok::<u8, LookupError>(#[trigger] texture[k])
            },
        },
{
    match check_disp(params) {
        Err(e) => {
            return Err(e);
        },
        Ok(()) => {},
    }
    let width: usize = 256;
    let mut texture: Vec<u8> = vec![0u8; width * width];
    let mut i: usize = 0;
    while i < width
        invariant
            i <= width,
            width == 256,
            disp_div != 0,
            disp_div == -1 ==> without_lowest(params.disp0@),
            texture.len() == DISP_LEN,
            params.disp0.len() >= DISP_LEN,
            bigf0_disp_error(height, disp_div, disp_add, params, 0) == bigf0_disp_error(
                height,
                disp_div,
                disp_add,
                params,
                i * 256,
            ),
            forall|k: int|
                0 <= k < i * 256 ==> bigf0_disp_texel(height, disp_div, disp_add, params, k)
                    == Ok::<u8, LookupError>(#[trigger] texture[k]),
        decreases width - i,
    {
        let mut j: usize = 0;
        while j < width
            invariant
                j <= width,
                i < width,
                width == 256,
                disp_div != 0,
                disp_div == -1 ==> without_lowest(params.disp0@),
                texture.len() == DISP_LEN,
                params.disp0.len() >= DISP_LEN,
                bigf0_disp_error(height, disp_div, disp_add, params, 0) == bigf0_disp_error(
                    height,
                    disp_div,
                    disp_add,
                    params,
                    i * 256 + j,
                ),
                forall|k: int|
                    0 <= k < i * 256 + j ==> bigf0_disp_texel(
                        height,
                        disp_div,
                        disp_add,
                        params,
                        k,
                    ) == Ok::<u8, LookupError>(#[trigger] texture[k]),
            decreases width - j,
        {
            let offset_param = i * 0x100;
            let raw: i8 = params.disp0[offset_param + j];
            let disp_val: i64 = divide(raw, disp_div) as i64 + disp_add as i64;
            let ghost at = i * 256 + j;
            assert(at % 256 == j && at / 256 == i);
            let height_param_x256: i64 = height as i64 * 256;
            let val = match lookup(
                params.bigf0.as_slice(),
                TableName::Bigf0,
                height_param_x256 + disp_val,
            ) {
                Ok(v) => v,
                Err(e) => {
                    return Err(located(e, j, i));
                },
            };
            texture[i * width + j] = val;
            j += 1;
        }
        i += 1;
    }
    Ok(texture)
}


/// The colour that a displacement is shown in: twice its size without its
/// sign, in red if it is not negative and in blue if it is; -128 counts as
/// -127.
pub open spec fn disp_colour(disp_val: i8) -> (u8, u8, u8) {
    if disp_val < 0 {
        (0u8, 0u8, (if disp_val < -127 {
            254
        } else {
            -disp_val * 2
        }) as u8)
    } else {
        ((disp_val * 2) as u8, 0u8, 0u8)
    }
}

/// Computes the colour that a displacement is shown in.
pub fn disp_pixel(disp_val: i8) -> (c: (u8, u8, u8))
    ensures
        c == disp_colour(disp_val),
{
    if disp_val < 0 {
        let clamped: i8 = if disp_val < -127 {
            -127
        } else {
            disp_val
        };
        let v = -clamped;
        (0, 0, v as u8 * 2)
    } else {
        ((disp_val as u8) * 2, 0, 0)
    }
}

/// Where byte `c` of the pixel at column `x`, row `y` lies in an image of
/// 256 by 256 pixels of three bytes.
pub open spec fn colour_place(x: int, y: int, c: int) -> int {
    (y * 256 + x) * 3 + c
}

/// Byte `c` of a colour: red, green, blue.
pub open spec fn channel(colour: (u8, u8, u8), c: int) -> u8 {
    if c == 0 {
        colour.0
    } else if c == 1 {
        colour.1
    } else {
        colour.2
    }
}

/// The displacement field in colours, as red, green and blue bytes of an
/// image of 256 by 256 pixels: the entry at row `i`, column `j` of the
/// field is the pixel at column `i`, row `j`.
pub fn make_disp_texture2(params: &GlobeTextureParams) -> (r: Result<Vec<u8>, TextureError>)
    ensures
        params.disp0.len() >= DISP_LEN <==> r is Ok,
        r matches Err(e) ==> e == short_disp(params.disp0.len()),
        r matches Ok(img) ==> img.len() == 3 * DISP_LEN && forall|i: int, j: int, c: int|
            0 <= i < 256 && 0 <= j < 256 && 0 <= c < 3 ==> #[trigger] img[colour_place(i, j, c)]
                == channel(disp_colour(params.disp0[i * 256 + j]), c),
{
    match check_disp(params) {
        Err(e) => {
            return Err(e);
        },
        Ok(()) => {},
    }
    let width: usize = 256;
    let mut img: Vec<u8> = vec![0u8; 3 * 65536];
    let mut i: usize = 0;
    while i < width
        invariant
            i <= width,
            width == 256,
            img.len() == 3 * DISP_LEN,
            params.disp0.len() >= DISP_LEN,
            forall|a: int, b: int, c: int|
                0 <= a < i && 0 <= b < 256 && 0 <= c < 3 ==> #[trigger] img[colour_place(a, b, c)]
                    == channel(disp_colour(params.disp0[a * 256 + b]), c),
        decreases width - i,
    {
        let mut j: usize = 0;
        while j < width
            invariant
                j <= width,
                i < width,
                width == 256,
                img.len() == 3 * DISP_LEN,
                params.disp0.len() >= DISP_LEN,
                forall|a: int, b: int, c: int|
                    0 <= a < 256 && 0 <= b < 256 && 0 <= c < 3 && (a < i || (a == i && b < j))
                        ==> #[trigger] img[colour_place(a, b, c)] == channel(
                        disp_colour(params.disp0[a * 256 + b]),
                        c,
                    ),
            decreases width - j,
        {
            let offset_param = i * 0x100;
            let disp_val = params.disp0[offset_param + j];
            let colour = disp_pixel(disp_val);
            let at = (j * width + i) * 3;
            let ghost before = img@;
            img[at] = colour.0;
            img[at + 1] = colour.1;
            img[at + 2] = colour.2;
            proof {
                assert forall|a: int, b: int, c: int|
                    0 <= a < 256 && 0 <= b < 256 && 0 <= c < 3 && (a < i || (a == i && b < j
                        + 1)) implies #[trigger] img[colour_place(a, b, c)] == channel(
                    disp_colour(params.disp0[a * 256 + b]),
                    c,
                ) by {
                    if a == i && b == j {
                    } else {
                        assert(img[colour_place(a, b, c)] == before[colour_place(a, b, c)]);
                    }
                }
            }
            j += 1;
        }
        i += 1;
    }
    Ok(img)
}


/// Tells whether every displacement of the field can be divided by
/// `disp_div`: the divisor is not zero, and if it is -1 no displacement is
/// -128.
pub fn divides(disp_div: i8, params: &GlobeTextureParams) -> (b: bool)
    ensures
        b == (disp_div != 0 && (disp_div == -1 ==> without_lowest(params.disp0@))),
{
    if disp_div == 0 {
        return false;
    }
    if disp_div != -1 {
        return true;
    }
    let mut k: usize = 0;
    while k < 65536 && k < params.disp0.len()
        invariant
            k <= DISP_LEN,
            k <= params.disp0.len(),
            disp_div == -1,
            forall|m: int| 0 <= m < k ==> #[trigger] params.disp0@[m] != -128,
        decreases DISP_LEN - k,
    {
        if params.disp0[k] == -128 {
            assert(params.disp0@[k as int] == -128);
            return false;
        }
        k += 1;
    }
    true
}

} // verus!
