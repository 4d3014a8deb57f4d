//! The water texture: 256 by 256 texels that the displacement field alone
//! gives, scrolled by a counter.
//!
//! `bigf0` holds 256 bytes of texture for each height. The displacement
//! chooses the row of the texture and, with its low bits dropped, nothing
//! of the column, so that water is drawn from the rows that start at 0x4b80.

use vstd::prelude::*;
use crate::pop::error::{located, lookup, spec_located, spec_lookup, LookupError, TableName, TextureError};
use crate::pop::landscape::land::{lemma_pixel_place, lemma_ring_sum};
use crate::pop::level::GlobeTextureParams;
use crate::pop::types::{lemma_image_by_pixels, same_texture, Image, ImageStorage};

verus! {

/// The side of the water texture.
pub const WATER_SIDE: usize = 256;

/// Where the water texture starts in `bigf0`.
pub const WATER_BASE: i32 = 0x4b80;

/// What a displacement is multiplied by for water.
pub const WATER_MULTIPLIER: i32 = 0x1a9;

/// How far into the water rows of `bigf0` a displacement reaches: its
/// product with the multiplier, without its sign, as a pattern of 32 bits
/// with bits 2 to 9 cleared, shifted right by two with its sign kept.
pub open spec fn water_component(disp_raw: i8) -> i32 {
    let product: i32 = if disp_raw < 0 {
        (-(disp_raw * WATER_MULTIPLIER)) as i32
    } else {
        (disp_raw * WATER_MULTIPLIER) as i32
    };
    ((product as u32 & 0xfffffc03u32) as i32) >> 2
}

/// The texel at row `i`, column `j` of the water texture at scroll position
/// `offset`, or the first lookup on the way to it that fails.
pub open spec fn water_texel(offset: usize, params: &GlobeTextureParams, i: int, j: int) -> Result<
    u8,
    LookupError,
> {
    match spec_lookup(params.disp0@, TableName::Disp0, ((offset + i) % 256) * 0x100 + j) {
        Err(e) => Err(e),
        Ok(disp_raw) => spec_lookup(
            params.bigf0@,
            TableName::Bigf0,
            WATER_BASE + water_component(disp_raw),
        ),
    }
}

/// Computes the texel at row `i`, column `j` of the water texture.
pub fn water_pixel(offset_counter: usize, params: &GlobeTextureParams, i: usize, j: usize) -> (r:
    Result<u8, LookupError>)
    requires
        i < WATER_SIDE,
        j < WATER_SIDE,
    ensures
        r == water_texel(offset_counter, params, i as int, j as int),
{
    let low: usize = offset_counter & 0xff;
    assert(low == offset_counter % 256) by (bit_vector)
        requires
            low == offset_counter & 0xff,
    ;
    let sum: usize = low + i;
    let row: usize = sum & 0xff;
    assert(row == sum % 256) by (bit_vector)
        requires
            row == sum & 0xff,
    ;
    proof {
        lemma_ring_sum(offset_counter as int, 0, i as int);
    }
    let offset_param = row * 0x100;
    let disp_raw = match lookup(
        params.disp0.as_slice(),
        TableName::Disp0,
        (offset_param + j) as i64,
    ) {
        Ok(v) => v,
        Err(e) => {
            return Err(e);
        },
    };
    let disp_val: i32 = (disp_raw as i32) * 0x1a9;
    let disp_val: i32 = if disp_val < 0 {
        -disp_val
    } else {
        disp_val
    };
    let disp_val: i32 = (((disp_val as u32) & 0xfffffc03) as i32) >> 2;
    lookup(params.bigf0.as_slice(), TableName::Bigf0, 0x4b80 + disp_val as i64)
}

/// The first failed lookup among the texels from row `i`, column `j` on,
/// row by row and from left to right in each row, with the column and the
/// row of its pixel.
pub open spec fn water_error(offset: usize, params: &GlobeTextureParams, i: int, j: int) -> Option<
    TextureError,
>
    decreases WATER_SIDE - i, WATER_SIDE - j,
{
    if i < 0 || j < 0 || i >= WATER_SIDE {
        None
    } else if j >= WATER_SIDE {
        water_error(offset, params, i + 1, 0)
    } else {
        match water_texel(offset, params, i, j) {
            Err(e) => Some(spec_located(e, j as usize, i as usize)),
            Ok(_) => water_error(offset, params, i, j + 1),
        }
    }
}

/// Water in which no lookup fails has no first failed lookup.
pub proof fn lemma_water_without_error(offset: usize, params: &GlobeTextureParams, i: int, j: int)
    requires
        forall|r: int, c: int|
            0 <= r < WATER_SIDE && 0 <= c < WATER_SIDE ==> (#[trigger] water_texel(
                offset,
                params,
                r,
                c,
            )) is Ok,
    ensures
        water_error(offset, params, i, j) is None,
    decreases WATER_SIDE - i, WATER_SIDE - j,
{
    if i < 0 || j < 0 || i >= WATER_SIDE {
    } else if j >= WATER_SIDE {
        lemma_water_without_error(offset, params, i + 1, 0);
    } else {
        assert(water_texel(offset, params, i, j) is Ok);
        lemma_water_without_error(offset, params, i, j + 1);
    }
}

/// How far a displacement reaches into the water rows is its product with
/// the multiplier, without its sign, in whole 1024ths, times 256.
pub proof fn lemma_water_component(disp_raw: i8)
    ensures
        water_component(disp_raw) == ((crate::pop::landscape::land::magnitude(disp_raw as int)
            * WATER_MULTIPLIER) / 1024) * 256,
        0 <= water_component(disp_raw) <= 53 * 256,
{
    let product: i32 = if disp_raw < 0 {
        (-(disp_raw * WATER_MULTIPLIER)) as i32
    } else {
        (disp_raw * WATER_MULTIPLIER) as i32
    };
    assert(((((product as u32) & 0xfffffc03u32) as i32) >> 2) == (product / 1024) * 256)
        by (bit_vector)
        requires
            0 <= product <= 0x10000,
    ;
}

/// With tables of the documented sizes no lookup of the water texture
/// fails, whatever the scroll position.
pub proof fn law_water_tables_suffice(offset: usize, params: &GlobeTextureParams)
    requires
        params.wf(),
    ensures
        water_error(offset, params, 0, 0) is None,
{
    assert forall|r: int, c: int| 0 <= r < WATER_SIDE && 0 <= c < WATER_SIDE implies (
    #[trigger] water_texel(offset, params, r, c)) is Ok by {
        let at = ((offset + r) % 256) * 0x100 + c;
        assert(0 <= at < 65536);
        lemma_water_component(params.disp0@[at]);
    }
    lemma_water_without_error(offset, params, 0, 0);
}

/// `r` is what making the water texture comes to: the image of all the
/// texels, or the first lookup that fails.
pub open spec fn water_is(
    offset: usize,
    params: &GlobeTextureParams,
    r: Result<Image, TextureError>,
) -> bool {
    match r {
        Err(e) => water_error(offset, params, 0, 0) == Some(e),
        Ok(image) => {
            &&& water_error(offset, params, 0, 0) is None
            &&& image.width == WATER_SIDE
            &&& image.height == WATER_SIDE
            &&& image.wf()
            &&& forall|x: int, y: int|
                0 <= x < WATER_SIDE && 0 <= y < WATER_SIDE ==> water_texel(offset, params, y, x)
                    == Ok::<u8, LookupError>(#[trigger] image.pixel(x, y))
        },
    }
}

/// Makes the water texture at scroll position `offset_counter`.
pub fn texture_water(offset_counter: usize, params: &GlobeTextureParams) -> (r: Result<
    Image,
    TextureError,
>)
    ensures
        water_is(offset_counter, params, r),
        params.wf() ==> r is Ok,
{
    proof {
        if params.wf() {
            law_water_tables_suffice(offset_counter, params);
        }
    }
    let width: usize = 256;
    let mut img = Image::allocate(width, width);
    let mut i: usize = 0;
    while i < width
        invariant
            i <= width,
            width == WATER_SIDE,
            params.wf() ==> water_error(offset_counter, params, 0, 0) is None,
            img.width == WATER_SIDE,
            img.height == WATER_SIDE,
            img.wf(),
            water_error(offset_counter, params, 0, 0) == water_error(
                offset_counter,
                params,
                i as int,
                0,
            ),
            forall|x: int, y: int|
                0 <= x < WATER_SIDE && 0 <= y < i ==> water_texel(offset_counter, params, y, x)
                    == Ok::<u8, LookupError>(#[trigger] img.pixel(x, y)),
        decreases width - i,
    {
        let mut j: usize = 0;
        while j < width
            invariant
                j <= width,
                i < width,
                width == WATER_SIDE,
                params.wf() ==> water_error(offset_counter, params, 0, 0) is None,
                img.width == WATER_SIDE,
                img.height == WATER_SIDE,
                img.wf(),
                water_error(offset_counter, params, 0, 0) == water_error(
                    offset_counter,
                    params,
                    i as int,
                    j as int,
                ),
                forall|x: int, y: int|
                    0 <= x < WATER_SIDE && 0 <= y < WATER_SIDE && (y < i || (y == i && x < j))
                        ==> water_texel(offset_counter, params, y, x) == Ok::<u8, LookupError>(
                        #[trigger] img.pixel(x, y),
                    ),
            decreases width - j,
        {
            let val = match water_pixel(offset_counter, params, i, j) {
                Ok(v) => v,
                Err(e) => {
                    return Err(located(e, j, i));
                },
            };
            let ghost before = img;
            proof {
                lemma_pixel_place(256, 256, j as int, i as int, j as int, i as int);
            }
            img.set_pixel(j, i, val);
            proof {
                assert forall|x: int, y: int|
                    0 <= x < WATER_SIDE && 0 <= y < WATER_SIDE && (y < i || (y == i && x < j
                        + 1)) implies water_texel(offset_counter, params, y, x) == Ok::<
                    u8,
                    LookupError,
                >(#[trigger] img.pixel(x, y)) by {
                    lemma_pixel_place(256, 256, x, y, j as int, i as int);
                    if x == j && y == i {
                    } else {
                        assert(img.pixel(x, y) == before.pixel(x, y));
                    }
                }
            }
            j += 1;
        }
        i += 1;
    }
    Ok(img)
}


/// The water texture is determined by the scroll position and the tables:
/// whatever meets its description is the same image, or the same failure.
pub proof fn law_water_determined(
    offset: usize,
    params: &GlobeTextureParams,
    first: Result<Image, TextureError>,
    second: Result<Image, TextureError>,
)
    requires
        water_is(offset, params, first),
        water_is(offset, params, second),
    ensures
        same_texture(first, second),
{
    if let (Ok(a), Ok(b)) = (first, second) {
        assert forall|x: int, y: int| 0 <= x < a.width && 0 <= y < a.height implies #[trigger] a.pixel(
            x,
            y,
        ) == b.pixel(x, y) by {
            let t = water_texel(offset, params, y, x);
            assert(t == Ok::<u8, LookupError>(a.pixel(x, y)));
            assert(t == Ok::<u8, LookupError>(b.pixel(x, y)));
        }
        lemma_image_by_pixels(&a, &b);
    }
}

} // verus!
