//! The texel formula, the rendering of a landscape tile by tile, and the full
//! land texture of 32 by 32 texels per cell.

use vstd::prelude::*;
use crate::pop::error::{located, lookup, spec_located, spec_lookup, LookupError, TableName, TextureError};
use crate::pop::landscape::common::{
    lemma_interpolated_bounds,
    lemma_inc_line_interpolates,
    lemma_product_bound,
    DispProvider,
    LandPosIterator,
    LandPosQ,
    LandPosQuad,
    LandTileQuad,
    LandscapeFull,
};
use crate::pop::level::GlobeTextureParams;
use crate::pop::types::{
    lemma_image_by_pixels,
    lemma_split,
    same_texture,
    Image,
    ImageInfo,
    ImageSourceComposed,
    ImageStorage,
    ImageTile,
    ImageTileSource,
    TiledComposer,
};

verus! {

/// The side of a tile of the land texture.
pub const LAND_TILE: u16 = 32;

/// The sampler of the displacement field for tiles of 32 by 32 texels. The
/// window of the tile starts at column `y`, row `x` of the field and goes
/// round its edges.
pub struct DispProvider32<'a> {
    pub x: usize,
    pub y: usize,
    pub disp: &'a Vec<i8>,
}

impl<'a> DispProvider32<'a> {
    pub fn new(disp: &'a Vec<i8>) -> (p: Self)
        ensures
            p == Self::spec_start(disp),
    {
        Self { x: 0, y: 0, disp }
    }

    /// The sampler over the field `disp` before it is moved to a tile.
    pub open spec fn spec_start(disp: &'a Vec<i8>) -> DispProvider32<'a> {
        DispProvider32 { x: 0, y: 0, disp }
    }

    /// Where the sample for row `row`, column `col` of the tile lies in the
    /// field.
    pub open spec fn sample_index(&self, row: int, col: int) -> int {
        ((self.x + col) % 256) * 256 + (self.y + row) % 256
    }

    /// The sample for row `row`, column `col` of the tile.
    pub open spec fn sample(&self, row: int, col: int) -> Result<i8, LookupError> {
        spec_lookup(self.disp@, TableName::Disp0, self.sample_index(row, col))
    }

    /// The sample for row `i + di`, column `j + dj`.
    fn sample_at(&self, i: usize, di: usize, j: usize, dj: usize) -> (r: Result<i8, LookupError>)
        requires
            di <= 1,
            dj <= 1,
        ensures
            r == self.sample(i + di, j + dj),
    {
        let sx = self.x;
        let sy = self.y;
        let ym: usize = sy & 0xff;
        let im: usize = i & 0xff;
        let xm: usize = sx & 0xff;
        let jm: usize = j & 0xff;
        assert(ym == sy % 256) by (bit_vector)
            requires
                ym == sy & 0xff,
        ;
        assert(im == i % 256) by (bit_vector)
            requires
                im == i & 0xff,
        ;
        assert(xm == sx % 256) by (bit_vector)
            requires
                xm == sx & 0xff,
        ;
        assert(jm == j % 256) by (bit_vector)
            requires
                jm == j & 0xff,
        ;
        let ys: usize = ym + im + di;
        let xs: usize = xm + jm + dj;
        let y: usize = ys & 0xff;
        let x: usize = (xs & 0xff) << 8;
        assert(y == ys % 256) by (bit_vector)
            requires
                y == ys & 0xff,
        ;
        assert(x == (xs % 256) * 256) by (bit_vector)
            requires
                x == (xs & 0xff) << 8,
                xs < 1024,
        ;
        proof {
            lemma_ring_sum(sy as int, i as int, di as int);
            lemma_ring_sum(sx as int, j as int, dj as int);
        }
        lookup(self.disp.as_slice(), TableName::Disp0, (x + y) as i64)
    }
}

impl<'a> DispProvider for DispProvider32<'a> {
    open spec fn spec_val(&self, i: usize, j: usize) -> Result<i8, LookupError> {
        self.sample(i as int, j as int)
    }

    /// The step from the sample of the texel to the sample of its neighbour
    /// one column on and one row down; in the last column of the tile, of its
    /// neighbour one column on in the same row.
    open spec fn spec_val_adjacent(&self, i: usize, j: usize) -> Result<i16, LookupError> {
        match self.sample(i as int, j as int) {
            Err(e) => Err(e),
            Ok(here) => match self.sample(
                i + (if j == 31 {
                    0int
                } else {
                    1int
                }),
                j + 1,
            ) {
                Err(e) => Err(e),
                Ok(there) => Ok((there - here) as i16),
            },
        }
    }

    open spec fn spec_update(&self, pos: &LandPosQuad) -> Self {
        DispProvider32 {
            x: ((pos.x % 8) * 32) as usize,
            y: ((pos.y % 8) * 32) as usize,
            disp: self.disp,
        }
    }

    proof fn lemma_update_forgets(&self, first: &LandPosQuad, then: &LandPosQuad) {
    }

    fn val(&self, i: usize, j: usize) -> (r: Result<i8, LookupError>) {
        self.sample_at(i, 0, j, 0)
    }

    fn val_adjacent(&self, i: usize, j: usize) -> (r: Result<i16, LookupError>) {
        let disp_val = match self.sample_at(i, 0, j, 0) {
            Ok(v) => v,
            Err(e) => {
                return Err(e);
            },
        };
        let id: usize = if j == 31 {
            0
        } else {
            1
        };
        let disp_val_2 = match self.sample_at(i, id, j, 1) {
            Ok(v) => v,
            Err(e) => {
                return Err(e);
            },
        };
        Ok(disp_val_2 as i16 - disp_val as i16)
    }

    fn update(&mut self, _disp0: &[i8], pos: &LandPosQuad) {
        let px = pos.x;
        let py = pos.y;
        assert(px & 0x7 == px % 8) by (bit_vector);
        assert(py & 0x7 == py % 8) by (bit_vector);
        self.x = ((px & 0x7) as usize) * 32;
        self.y = ((py & 0x7) as usize) * 32;
    }
}

/// On the ring of 256, a sum may be taken of the remainders of its terms.
pub proof fn lemma_ring_sum(a: int, b: int, c: int)
    requires
        0 <= a,
        0 <= b,
        0 <= c,
    ensures
        ((a % 256) + (b % 256) + c) % 256 == (a + b + c) % 256,
{
    let qa = a / 256;
    let qb = b / 256;
    assert(a == 256 * qa + a % 256);
    assert(b == 256 * qb + b % 256);
    let rest = (a % 256) + (b % 256) + c;
    assert(a + b + c == 256 * (qa + qb) + rest);
    vstd::arithmetic::div_mod::lemma_mod_multiples_vanish(qa + qb, rest, 256);
}

/// A number without its sign.
pub open spec fn magnitude(a: int) -> int {
    if a < 0 {
        -a
    } else {
        a
    }
}

/// `a / b`, rounded towards zero.
pub open spec fn trunc_div(a: int, b: int) -> int {
    let q = magnitude(a) / magnitude(b);
    if (a < 0) != (b < 0) {
        -q
    } else {
        q
    }
}

/// The height of the texel at row `i`, column `j` of the tile: the
/// interpolated effective height without its fraction.
pub open spec fn texel_height(tile: &LandTileQuad, i: int, j: int) -> int {
    trunc_div(tile.height_inc.spec_inc_line(i, j), tile.width * tile.width)
}

/// The brightness distance of a texel: a quarter of the displacement signal
/// `adjacent` plus the interpolated brightness `brightness / scale`, rounded
/// to the nearest whole number, halves upwards, and clamped to a byte.
pub open spec fn brightness_distance(adjacent: int, brightness: int, scale: int) -> int {
    let rounded = (adjacent * scale + 4 * brightness + 2 * scale) / (4 * scale);
    if rounded < 0 {
        0
    } else if rounded > 255 {
        255
    } else {
        rounded
    }
}

/// The edge of a texel: a quarter of the interpolated cliff marker
/// `c1 / scale`, not below zero, without its fraction.
pub open spec fn texel_edge(c1: int, scale: int) -> int {
    if c1 <= 0 {
        0
    } else {
        c1 / (4 * scale)
    }
}

/// The part of a texel's index that the displacement gives: the product of
/// the height multiplier and the displacement, as a pattern of 32 bits with
/// bits 2 to 9 cleared, shifted right by two with its sign kept.
pub open spec fn static_component(multiplier: u16, disp_raw: i8) -> i32 {
    ((((multiplier as i32 * disp_raw as i32) as i32) as u32 & 0xfffffc03u32) as i32) >> 2
}

/// The part of a texel's index that the height gives.
pub open spec fn height_component(height: int) -> i32 {
    ((height * 256) as i32) & 0x7fffff00i32
}

/// The texel at row `i`, column `j` of a tile, or the first lookup on the way
/// to it that fails: the displacement signal, the displacement, the height
/// multiplier, the entry of `bigf0`, the entry of `cliff0`.
pub open spec fn land_texel<D: DispProvider>(
    params: &GlobeTextureParams,
    tile: &LandTileQuad,
    disp: &D,
    i: usize,
    j: usize,
) -> Result<u8, LookupError> {
    let scale = tile.width * tile.width;
    let height = texel_height(tile, i as int, j as int);
    match disp.spec_val_adjacent(i, j) {
        Err(e) => Err(e),
        Ok(adjacent) => {
            let b_dist = brightness_distance(
                adjacent as int,
                tile.brightness_inc.spec_inc_line(i as int, j as int),
                scale,
            );
            let edge = texel_edge(tile.c1_inc.spec_inc_line(i as int, j as int), scale);
            match disp.spec_val(i, j) {
                Err(e) => Err(e),
                Ok(disp_raw) => match spec_lookup(
                    params.static_landscape_array@,
                    TableName::StaticLandscapeArray,
                    height,
                ) {
                    Err(e) => Err(e),
                    Ok(multiplier) => {
                        let big_index = static_component(multiplier, disp_raw) + height_component(
                            height,
                        ) + b_dist;
                        match spec_lookup(params.bigf0@, TableName::Bigf0, big_index) {
                            Err(e) => Err(e),
                            Ok(big) => spec_lookup(
                                params.cliff0@,
                                TableName::Cliff0,
                                big + edge * 0x80,
                            ),
                        }
                    },
                },
            }
        },
    }
}

/// The first failed lookup among the texels of a tile from row `i`, column
/// `j` on, in the order in which the texels are written: row by row, and from
/// left to right in each row.
pub open spec fn tile_error<D: DispProvider>(
    params: &GlobeTextureParams,
    tile: &LandTileQuad,
    disp: &D,
    i: int,
    j: int,
) -> Option<LookupError>
    decreases tile.width - i, tile.width - j,
{
    if i < 0 || j < 0 || i >= tile.width {
        None
    } else if j >= tile.width {
        tile_error(params, tile, disp, i + 1, 0)
    } else {
        match land_texel(params, tile, disp, i as usize, j as usize) {
            Err(e) => Some(e),
            Ok(_) => tile_error(params, tile, disp, i, j + 1),
        }
    }
}

/// A tile in which no lookup fails has no first failed lookup.
pub proof fn lemma_tile_without_error<D: DispProvider>(
    params: &GlobeTextureParams,
    tile: &LandTileQuad,
    disp: &D,
    i: int,
    j: int,
)
    requires
        forall|r: int, c: int|
            0 <= r < tile.width && 0 <= c < tile.width ==> (#[trigger] land_texel(
                params,
                tile,
                disp,
                r as usize,
                c as usize,
            )) is Ok,
    ensures
        tile_error(params, tile, disp, i, j) is None,
    decreases tile.width - i, tile.width - j,
{
    if i < 0 || j < 0 || i >= tile.width {
    } else if j >= tile.width {
        lemma_tile_without_error(params, tile, disp, i + 1, 0);
    } else {
        assert(land_texel(params, tile, disp, i as usize, j as usize) is Ok);
        lemma_tile_without_error(params, tile, disp, i, j + 1);
    }
}

/// Computes the texel at row `i`, column `j` of a tile.
pub fn texel<D: DispProvider>(
    params: &GlobeTextureParams,
    land_tile: &LandTileQuad,
    disp: &D,
    i: usize,
    j: usize,
) -> (r: Result<u8, LookupError>)
    requires
        land_tile.wf(),
        i < land_tile.width,
        j < land_tile.width,
    ensures
        r == land_texel(params, land_tile, disp, i, j),
{
    let scale = land_tile.scale();
    let n = land_tile.width;
    proof {
        let q = land_tile.pos;
        lemma_scaled_bounds(
            crate::pop::landscape::common::effective_height(q.p1.height, q.p1.c_1, q.p1.land_adj),
            crate::pop::landscape::common::effective_height(q.p2.height, q.p2.c_1, q.p2.land_adj),
            crate::pop::landscape::common::effective_height(q.p3.height, q.p3.c_1, q.p3.land_adj),
            crate::pop::landscape::common::effective_height(q.p4.height, q.p4.c_1, q.p4.land_adj),
            n as int,
            i as int,
            j as int,
            0xffff,
        );
        lemma_scaled_bounds(
            q.p1.brightness as int,
            q.p2.brightness as int,
            q.p3.brightness as int,
            q.p4.brightness as int,
            n as int,
            i as int,
            j as int,
            255,
        );
        lemma_scaled_bounds(
            q.p1.c_1 as int,
            q.p2.c_1 as int,
            q.p3.c_1 as int,
            q.p4.c_1 as int,
            n as int,
            i as int,
            j as int,
            255,
        );
    }
    let height_scaled = land_tile.height(i, j);
    let height: i64 = height_scaled / scale;
    proof {
        lemma_quotient_bounds(height_scaled as int, scale as int, 0, 0xffff);
    }

    let brightness = land_tile.brightness(i, j);
    let adjacent = match disp.val_adjacent(i, j) {
        Ok(v) => v,
        Err(e) => {
            return Err(e);
        },
    };
    proof {
        lemma_product_bound(adjacent as int, scale as int, 0x8000, 0xffff * 0xffffint);
    }
    let rounding: i64 = (adjacent as i64) * scale + 4 * brightness + 2 * scale;
    let b_dist: i64 = if rounding < 0 {
        proof {
            lemma_negative_quotient(rounding as int, 4 * scale);
        }
        0
    } else {
        let rounded = rounding / (4 * scale);
        if rounded > 255 {
            255
        } else {
            rounded
        }
    };

    let c1 = land_tile.c1(i, j);
    let edge: i64 = if c1 <= 0 {
        0
    } else {
        c1 / (4 * scale)
    };
    proof {
        lemma_quotient_bounds(c1 as int, 4 * scale, 0, 63);
    }

    let disp_val = match disp.val(i, j) {
        Ok(v) => v,
        Err(e) => {
            return Err(e);
        },
    };
    let multiplier = match lookup(
        params.static_landscape_array.as_slice(),
        TableName::StaticLandscapeArray,
        height,
    ) {
        Ok(v) => v,
        Err(e) => {
            return Err(e);
        },
    };
    proof {
        lemma_product_bound(multiplier as int, disp_val as int, 0xffff, 128);
    }
    let product: i32 = multiplier as i32 * (disp_val as i32);
    let static_part: i32 = (((product as u32) & 0xfffffc03) as i32) >> 2;
    let height_x256: i32 = (height * 256) as i32;
    let height_part: i32 = height_x256 & 0x7fffff00;
    let big_index: i64 = static_part as i64 + height_part as i64 + b_dist;
    let big_component = match lookup(params.bigf0.as_slice(), TableName::Bigf0, big_index) {
        Ok(v) => v,
        Err(e) => {
            return Err(e);
        },
    };
    lookup(params.cliff0.as_slice(), TableName::Cliff0, big_component as i64 + edge * 0x80)
}

/// Inside the tile, what a `LandInc` of corners between 0 and `hi` holds
/// lies between 0 and `hi` times the scale.
pub proof fn lemma_scaled_bounds(
    p1: int,
    p2: int,
    p3: int,
    p4: int,
    n: int,
    i: int,
    j: int,
    hi: int,
)
    requires
        0 <= p1 <= hi,
        0 <= p2 <= hi,
        0 <= p3 <= hi,
        0 <= p4 <= hi,
        hi <= 0xffff,
        0 < n <= 0xffff,
        0 <= i <= n,
        0 <= j <= n,
    ensures
        0 <= crate::pop::landscape::common::LandInc::spec_mk(p1, p2, p3, p4, n).spec_inc_line(i, j)
            <= hi * (n * n),
{
    lemma_inc_line_interpolates(p1, p2, p3, p4, n, i, j);
    lemma_interpolated_bounds(p1, p2, p3, p4, n, i, j, 0, hi);
}

/// A quotient lies between the bounds that the dividend lies between when
/// these are multiplied by the divisor.
pub proof fn lemma_quotient_bounds(a: int, d: int, lo: int, hi: int)
    by (nonlinear_arith)
    requires
        d > 0,
        lo * d <= a,
        a <= hi * d || a < (hi + 1) * d,
    ensures
        lo <= a / d <= hi,
{
}

/// A negative number divided by a positive one is negative.
proof fn lemma_negative_quotient(a: int, d: int)
    by (nonlinear_arith)
    requires
        a < 0,
        d > 0,
    ensures
        a / d < 0,
{
}


/// The tile lies inside its image, and the image has all its pixels.
pub open spec fn tile_in_image(tile: &ImageTile<Image>) -> bool {
    &&& tile.image.wf()
    &&& tile.start_x + tile.tile_width <= tile.image.width
    &&& tile.start_y + tile.tile_height <= tile.image.height
}

/// Pixel `(x, y)` of the image lies in the tile.
pub open spec fn in_tile(tile: &ImageTile<Image>, x: int, y: int) -> bool {
    &&& tile.start_x <= x < tile.start_x + tile.tile_width
    &&& tile.start_y <= y < tile.start_y + tile.tile_height
}

/// A pixel of the image lies inside its buffer, and two pixels that lie at
/// the same place of the buffer are one.
pub proof fn lemma_pixel_place(w: int, h: int, x: int, y: int, x2: int, y2: int)
    by (nonlinear_arith)
    requires
        0 <= x < w,
        0 <= y < h,
        0 <= x2 < w,
        0 <= y2,
    ensures
        0 <= w * y + x < w * h,
        w * y + x == w * y2 + x2 ==> x == x2 && y == y2,
{
}

/// Renders one tile: computes the texel of every row `i` and column `j` of
/// the land tile and writes it to column `j`, row `i` of the image tile. Stops
/// at the first lookup that fails.
pub fn render_land_tile<D: DispProvider>(
    params: &GlobeTextureParams,
    land_tile: &LandTileQuad,
    disp: &D,
    image_tile: &mut ImageTile<Image>,
) -> (r: Result<(), LookupError>)
    requires
        land_tile.wf(),
        old(image_tile).tile_width == land_tile.width,
        old(image_tile).tile_height == land_tile.width,
        tile_in_image(old(image_tile)),
    ensures
        final(image_tile).start_x == old(image_tile).start_x,
        final(image_tile).start_y == old(image_tile).start_y,
        final(image_tile).tile_width == old(image_tile).tile_width,
        final(image_tile).tile_height == old(image_tile).tile_height,
        final(image_tile).image.width == old(image_tile).image.width,
        final(image_tile).image.height == old(image_tile).image.height,
        final(image_tile).image.wf(),
        r is Ok <==> tile_error(params, land_tile, disp, 0, 0) is None,
        r matches Err(e) ==> tile_error(params, land_tile, disp, 0, 0) == Some(e),
        r is Ok ==> forall|x: int, y: int|
            in_tile(old(image_tile), x, y) ==> land_texel(
                params,
                land_tile,
                disp,
                (y - old(image_tile).start_y) as usize,
                (x - old(image_tile).start_x) as usize,
            ) == Ok::<u8, LookupError>(#[trigger] final(image_tile).image.pixel(x, y)),
        forall|x: int, y: int|
            0 <= x < old(image_tile).image.width && 0 <= y < old(image_tile).image.height
                && !in_tile(old(image_tile), x, y) ==> #[trigger] final(image_tile).image.pixel(
                x,
                y,
            ) == old(image_tile).image.pixel(x, y),
{
    let w = land_tile.tile_width();
    let h = land_tile.tile_height();
    let mut i: usize = 0;
    while i < w
        invariant
            i <= w,
            w == land_tile.width,
            h == land_tile.width,
            land_tile.wf(),
            old(image_tile).tile_width == land_tile.width,
            old(image_tile).tile_height == land_tile.width,
            image_tile.start_x == old(image_tile).start_x,
            image_tile.start_y == old(image_tile).start_y,
            image_tile.tile_width == land_tile.width,
            image_tile.tile_height == land_tile.width,
            image_tile.image.width == old(image_tile).image.width,
            image_tile.image.height == old(image_tile).image.height,
            tile_in_image(image_tile),
            tile_error(params, land_tile, disp, 0, 0) == tile_error(
                params,
                land_tile,
                disp,
                i as int,
                0,
            ),
            forall|x: int, y: int|
                0 <= x < image_tile.image.width && 0 <= y < image_tile.image.height ==> (if in_tile(
                    image_tile,
                    x,
                    y,
                ) && y < image_tile.start_y + i {
                    land_texel(
                        params,
                        land_tile,
                        disp,
                        (y - image_tile.start_y) as usize,
                        (x - image_tile.start_x) as usize,
                    ) == Ok::<u8, LookupError>(#[trigger] image_tile.image.pixel(x, y))
                } else {
                    image_tile.image.pixel(x, y) == old(image_tile).image.pixel(x, y)
                }),
        decreases w - i,
    {
        let mut j: usize = 0;
        while j < h
            invariant
                j <= h,
                i < w,
                w == land_tile.width,
                h == land_tile.width,
                land_tile.wf(),
                old(image_tile).tile_width == land_tile.width,
                old(image_tile).tile_height == land_tile.width,
                image_tile.start_x == old(image_tile).start_x,
                image_tile.start_y == old(image_tile).start_y,
                image_tile.tile_width == land_tile.width,
                image_tile.tile_height == land_tile.width,
                image_tile.image.width == old(image_tile).image.width,
                image_tile.image.height == old(image_tile).image.height,
                tile_in_image(image_tile),
                tile_error(params, land_tile, disp, 0, 0) == tile_error(
                    params,
                    land_tile,
                    disp,
                    i as int,
                    j as int,
                ),
                forall|x: int, y: int|
                    0 <= x < image_tile.image.width && 0 <= y < image_tile.image.height ==> (
                    if in_tile(image_tile, x, y) && (y < image_tile.start_y + i || (y
                        == image_tile.start_y + i && x < image_tile.start_x + j)) {
                        land_texel(
                            params,
                            land_tile,
                            disp,
                            (y - image_tile.start_y) as usize,
                            (x - image_tile.start_x) as usize,
                        ) == Ok::<u8, LookupError>(#[trigger] image_tile.image.pixel(x, y))
                    } else {
                        image_tile.image.pixel(x, y) == old(image_tile).image.pixel(x, y)
                    }),
            decreases h - j,
        {
            let val = match texel(params, land_tile, disp, i, j) {
                Ok(v) => v,
                Err(e) => {
                    return Err(e);
                },
            };
            let ghost before = image_tile.image;
            let ghost px = image_tile.start_x + j;
            let ghost py = image_tile.start_y + i;
            proof {
                lemma_pixel_place(
                    before.width as int,
                    before.height as int,
                    px as int,
                    py as int,
                    px as int,
                    py as int,
                );
            }
            image_tile.set_pixel(j, i, val);
            proof {
                assert forall|x: int, y: int|
                    0 <= x < image_tile.image.width && 0 <= y
                        < image_tile.image.height implies (if in_tile(image_tile, x, y) && (y
                    < image_tile.start_y + i || (y == image_tile.start_y + i && x
                    < image_tile.start_x + j + 1)) {
                    land_texel(
                        params,
                        land_tile,
                        disp,
                        (y - image_tile.start_y) as usize,
                        (x - image_tile.start_x) as usize,
                    ) == Ok::<u8, LookupError>(#[trigger] image_tile.image.pixel(x, y))
                } else {
                    image_tile.image.pixel(x, y) == old(image_tile).image.pixel(x, y)
                }) by {
                    lemma_pixel_place(
                        before.width as int,
                        before.height as int,
                        x,
                        y,
                        px as int,
                        py as int,
                    );
                    if x == px && y == py {
                    } else {
                        assert(image_tile.image.pixel(x, y) == before.pixel(x, y));
                    }
                }
            }
            j += 1;
        }
        i += 1;
    }
    Ok(())
}

/// The tile of side `n` over the quad at row `cy`, column `cx` of the
/// landscape.
pub open spec fn cell_tile(land: &LandscapeFull, n: u16, cy: int, cx: int) -> LandTileQuad<'_> {
    LandTileQuad::spec_new(n, &land.quad(cy, cx))
}

/// The texel at row `i`, column `j` of the tile of the cell at row `cy`,
/// column `cx`, sampled by `disp` moved to that cell.
pub open spec fn cell_texel<D: DispProvider>(
    params: &GlobeTextureParams,
    land: &LandscapeFull,
    disp: &D,
    n: u16,
    cy: int,
    cx: int,
    i: int,
    j: int,
) -> Result<u8, LookupError> {
    land_texel(
        params,
        &cell_tile(land, n, cy, cx),
        &disp.spec_update(&land.quad(cy, cx)),
        i as usize,
        j as usize,
    )
}

/// The first failed lookup in the tile of the cell at row `cy`, column `cx`.
pub open spec fn cell_error<D: DispProvider>(
    params: &GlobeTextureParams,
    land: &LandscapeFull,
    disp: &D,
    n: u16,
    cy: int,
    cx: int,
) -> Option<LookupError> {
    tile_error(params, &cell_tile(land, n, cy, cx), &disp.spec_update(&land.quad(cy, cx)), 0, 0)
}

/// The first failed lookup among the cells from row `cy`, column `cx` on, in
/// the order of the walk, with the column and the row of its cell.
pub open spec fn landscape_error<D: DispProvider>(
    params: &GlobeTextureParams,
    land: &LandscapeFull,
    disp: &D,
    n: u16,
    cy: int,
    cx: int,
) -> Option<TextureError>
    decreases land.spec_width() - cy, land.spec_width() - cx,
{
    if cy < 0 || cx < 0 || cy >= land.spec_width() {
        None
    } else if cx >= land.spec_width() {
        landscape_error(params, land, disp, n, cy + 1, 0)
    } else {
        match cell_error(params, land, disp, n, cy, cx) {
            Some(e) => Some(spec_located(e, cx as usize, cy as usize)),
            None => landscape_error(params, land, disp, n, cy, cx + 1),
        }
    }
}

/// A landscape in which no tile has a failed lookup has none.
pub proof fn lemma_landscape_without_error<D: DispProvider>(
    params: &GlobeTextureParams,
    land: &LandscapeFull,
    disp: &D,
    n: u16,
    cy: int,
    cx: int,
)
    requires
        forall|r: int, c: int|
            0 <= r < land.spec_width() && 0 <= c < land.spec_width() ==> (#[trigger] cell_error(
                params,
                land,
                disp,
                n,
                r,
                c,
            )) is None,
    ensures
        landscape_error(params, land, disp, n, cy, cx) is None,
    decreases land.spec_width() - cy, land.spec_width() - cx,
{
    if cy < 0 || cx < 0 || cy >= land.spec_width() {
    } else if cx >= land.spec_width() {
        lemma_landscape_without_error(params, land, disp, n, cy + 1, 0);
    } else {
        assert(cell_error(params, land, disp, n, cy, cx) is None);
        lemma_landscape_without_error(params, land, disp, n, cy, cx + 1);
    }
}

/// The cell at row `cy`, column `cx` comes at or after the cell at row `sy`,
/// column `sx` in the walk.
pub open spec fn at_or_after(cy: int, cx: int, sy: int, sx: int) -> bool {
    cy > sy || (cy == sy && cx >= sx)
}

/// The source hands out square tiles of side `n`, one for every cell of the
/// landscape, and its image has room for all of them.
pub open spec fn source_fits(
    source: &ImageSourceComposed<TiledComposer, Image>,
    land: &LandscapeFull,
    n: u16,
) -> bool {
    &&& n > 0
    &&& source.composer.tile_width == n
    &&& source.composer.tile_height == n
    &&& land.spec_width() <= source.composer.total_width
    &&& land.spec_width() <= source.composer.total_height
    &&& source.tile.image.wf()
    &&& land.spec_width() * n <= source.tile.image.width
    &&& land.spec_width() * n <= source.tile.image.height
}

/// The tiles of two cells do not meet: a tile's pixel lies in no other tile.
pub proof fn lemma_tile_place(n: int, w: int, c: int, j: int, c2: int)
    by (nonlinear_arith)
    requires
        0 < n,
        0 <= c < w,
        0 <= j < n,
        0 <= c2,
    ensures
        0 <= c * n,
        c * n + n <= w * n,
        c2 * n <= c * n + j < c2 * n + n <==> c == c2,
{
}

/// Where the walk stands after the cell at row `cy`, column `cx` of a grid
/// of side `side`: the row.
pub open spec fn next_row(side: int, cy: int, cx: int) -> int {
    if cx + 1 >= side {
        cy + 1
    } else {
        cy
    }
}

/// Where the walk stands after the cell at row `cy`, column `cx` of a grid
/// of side `side`: the column.
pub open spec fn next_column(side: int, cy: int, cx: int) -> int {
    if cx + 1 >= side {
        0
    } else {
        cx + 1
    }
}

/// Past a cell whose tile has no failed lookup, the first failed lookup is
/// that of the rest of the walk.
proof fn lemma_error_step<D: DispProvider>(
    params: &GlobeTextureParams,
    land: &LandscapeFull,
    disp: &D,
    n: u16,
    cy: int,
    cx: int,
)
    requires
        0 <= cy < land.spec_width(),
        0 <= cx < land.spec_width(),
        cell_error(params, land, disp, n, cy, cx) is None,
    ensures
        landscape_error(params, land, disp, n, cy, cx) == landscape_error(
            params,
            land,
            disp,
            n,
            next_row(land.spec_width() as int, cy, cx),
            next_column(land.spec_width() as int, cy, cx),
        ),
{
    assert(landscape_error(params, land, disp, n, cy, cx) == landscape_error(
        params,
        land,
        disp,
        n,
        cy,
        cx + 1,
    ));
    if cx + 1 >= land.spec_width() {
        assert(landscape_error(params, land, disp, n, cy, cx + 1) == landscape_error(
            params,
            land,
            disp,
            n,
            cy + 1,
            0,
        ));
    }
}

/// Pixel `(x, y)` lies in the square of side `n` whose upper left pixel is
/// `(left, top)`.
pub open spec fn in_square(left: int, top: int, n: int, x: int, y: int) -> bool {
    left <= x < left + n && top <= y < top + n
}

/// Pixel `(x, y)` lies in the tile of a cell that the walk passes between
/// the cell at row `sy`, column `sx` and, without it, the cell at row `ey`,
/// column `ex`.
pub open spec fn in_walked_cell(
    side: int,
    n: int,
    sy: int,
    sx: int,
    ey: int,
    ex: int,
    x: int,
    y: int,
) -> bool {
    exists|cy: int, cx: int|
        0 <= cy < side && 0 <= cx < side && at_or_after(cy, cx, sy, sx) && !at_or_after(
            cy,
            cx,
            ey,
            ex,
        ) && #[trigger] in_square(cx * n, cy * n, n, x, y)
}

/// Once the tile of the cell at row `at_y`, column `at_x` is rendered, the
/// image holds the texels of all cells of the walk up to and with that cell,
/// and is as it was outside their tiles.
proof fn lemma_cell_rendered<D: DispProvider>(
    params: &GlobeTextureParams,
    land: &LandscapeFull,
    first: &D,
    n: u16,
    sy: int,
    sx: int,
    at_y: int,
    at_x: int,
    then_y: int,
    then_x: int,
    image_first: Image,
    image_before: Image,
    image_after: Image,
)
    requires
        n > 0,
        0 <= at_y < land.spec_width(),
        0 <= at_x < land.spec_width(),
        at_or_after(at_y, at_x, sy, sx),
        then_y == next_row(land.spec_width() as int, at_y, at_x),
        then_x == next_column(land.spec_width() as int, at_y, at_x),
        image_first.width == image_before.width,
        image_first.height == image_before.height,
        forall|x: int, y: int|
            0 <= x < image_before.width && 0 <= y < image_before.height && !in_walked_cell(
                land.spec_width() as int,
                n as int,
                sy,
                sx,
                at_y,
                at_x,
                x,
                y,
            ) ==> #[trigger] image_before.pixel(x, y) == image_first.pixel(x, y),
        image_after.width == image_before.width,
        image_after.height == image_before.height,
        land.spec_width() * n <= image_before.width,
        land.spec_width() * n <= image_before.height,
        forall|cy: int, cx: int, i: int, j: int|
            0 <= cy < land.spec_width() && 0 <= cx < land.spec_width() && 0 <= i < n && 0 <= j < n
                && at_or_after(cy, cx, sy, sx) && !at_or_after(cy, cx, at_y, at_x) ==> (
            #[trigger] cell_texel(params, land, first, n, cy, cx, i, j)) == Ok::<u8, LookupError>(
                image_before.pixel(cx * n + j, cy * n + i),
            ),
        forall|x: int, y: int|
            in_square(at_x * n, at_y * n, n as int, x, y) ==> land_texel(
                params,
                &cell_tile(land, n, at_y, at_x),
                &first.spec_update(&land.quad(at_y, at_x)),
                (y - at_y * n) as usize,
                (x - at_x * n) as usize,
            ) == Ok::<u8, LookupError>(#[trigger] image_after.pixel(x, y)),
        forall|x: int, y: int|
            0 <= x < image_before.width && 0 <= y < image_before.height && !in_square(
                at_x * n,
                at_y * n,
                n as int,
                x,
                y,
            ) ==> #[trigger] image_after.pixel(x, y) == image_before.pixel(x, y),
    ensures
        forall|cy: int, cx: int, i: int, j: int|
            0 <= cy < land.spec_width() && 0 <= cx < land.spec_width() && 0 <= i < n && 0 <= j < n
                && at_or_after(cy, cx, sy, sx) && !at_or_after(cy, cx, then_y, then_x) ==> (
            #[trigger] cell_texel(params, land, first, n, cy, cx, i, j)) == Ok::<u8, LookupError>(
                image_after.pixel(cx * n + j, cy * n + i),
            ),
        forall|x: int, y: int|
            0 <= x < image_before.width && 0 <= y < image_before.height && !in_walked_cell(
                land.spec_width() as int,
                n as int,
                sy,
                sx,
                then_y,
                then_x,
                x,
                y,
            ) ==> #[trigger] image_after.pixel(x, y) == image_first.pixel(x, y),
{
    let side = land.spec_width() as int;
    assert forall|x: int, y: int|
        0 <= x < image_before.width && 0 <= y < image_before.height && !in_walked_cell(
            side,
            n as int,
            sy,
            sx,
            then_y,
            then_x,
            x,
            y,
        ) implies #[trigger] image_after.pixel(x, y) == image_first.pixel(x, y) by {
        // The pixel is not in the tile that was rendered last.
        if in_square(at_x * n, at_y * n, n as int, x, y) {
            assert(in_walked_cell(side, n as int, sy, sx, then_y, then_x, x, y));
        }
        // Nor in a tile that was rendered before.
        if in_walked_cell(side, n as int, sy, sx, at_y, at_x, x, y) {
            let (cy, cx) = choose|cy: int, cx: int|
                0 <= cy < side && 0 <= cx < side && at_or_after(cy, cx, sy, sx) && !at_or_after(
                    cy,
                    cx,
                    at_y,
                    at_x,
                ) && #[trigger] in_square(cx * n, cy * n, n as int, x, y);
            assert(in_square(cx * n, cy * n, n as int, x, y));
            assert(in_walked_cell(side, n as int, sy, sx, then_y, then_x, x, y));
        }
        assert(image_after.pixel(x, y) == image_before.pixel(x, y));
    }
    assert forall|cy: int, cx: int, i: int, j: int|
        0 <= cy < side && 0 <= cx < side && 0 <= i < n && 0 <= j < n && at_or_after(cy, cx, sy, sx)
            && !at_or_after(cy, cx, then_y, then_x) implies (#[trigger] cell_texel(
        params,
        land,
        first,
        n,
        cy,
        cx,
        i,
        j,
    )) == Ok::<u8, LookupError>(image_after.pixel(cx * n + j, cy * n + i)) by {
        let px = cx * n + j;
        let py = cy * n + i;
        lemma_tile_place(n as int, side, cx, j, at_x);
        lemma_tile_place(n as int, side, cy, i, at_y);
        if cy == at_y && cx == at_x {
            assert(in_square(at_x * n, at_y * n, n as int, px, py));
            assert(py - at_y * n == i);
            assert(px - at_x * n == j);
        } else {
            assert(!in_square(at_x * n, at_y * n, n as int, px, py));
            assert(image_after.pixel(px, py) == image_before.pixel(px, py));
        }
    }
}

/// Renders the quad of the cell at column `x`, row `y` into the tile that
/// the source has for that cell.
fn render_cell<D: DispProvider>(
    params: &GlobeTextureParams,
    quad: &LandPosQuad,
    x: usize,
    y: usize,
    disp: &D,
    tile_source: &mut ImageSourceComposed<TiledComposer, Image>,
) -> (r: Result<(), LookupError>)
    requires
        old(tile_source).composer.on_grid(x, y),
        0 < old(tile_source).composer.tile_width <= 0xffff,
        old(tile_source).composer.tile_height == old(tile_source).composer.tile_width,
        old(tile_source).tile.image.wf(),
        x * old(tile_source).composer.tile_width + old(tile_source).composer.tile_width <= old(
            tile_source,
        ).tile.image.width,
        y * old(tile_source).composer.tile_width + old(tile_source).composer.tile_width <= old(
            tile_source,
        ).tile.image.height,
    ensures
        final(tile_source).composer == old(tile_source).composer,
        final(tile_source).tile.image.width == old(tile_source).tile.image.width,
        final(tile_source).tile.image.height == old(tile_source).tile.image.height,
        final(tile_source).tile.image.wf(),
        r is Ok <==> tile_error(
            params,
            &LandTileQuad::spec_new(old(tile_source).composer.tile_width as u16, quad),
            disp,
            0,
            0,
        ) is None,
        r matches Err(e) ==> tile_error(
            params,
            &LandTileQuad::spec_new(old(tile_source).composer.tile_width as u16, quad),
            disp,
            0,
            0,
        ) == Some(e),
        r is Ok ==> forall|px: int, py: int|
            in_square(
                x * old(tile_source).composer.tile_width,
                y * old(tile_source).composer.tile_width,
                old(tile_source).composer.tile_width as int,
                px,
                py,
            ) ==> land_texel(
                params,
                &LandTileQuad::spec_new(old(tile_source).composer.tile_width as u16, quad),
                disp,
                (py - y * old(tile_source).composer.tile_width) as usize,
                (px - x * old(tile_source).composer.tile_width) as usize,
            ) == Ok::<u8, LookupError>(#[trigger] final(tile_source).tile.image.pixel(px, py)),
        forall|px: int, py: int|
            0 <= px < old(tile_source).tile.image.width && 0 <= py < old(
                tile_source,
            ).tile.image.height && !in_square(
                x * old(tile_source).composer.tile_width,
                y * old(tile_source).composer.tile_width,
                old(tile_source).composer.tile_width as int,
                px,
                py,
            ) ==> #[trigger] final(tile_source).tile.image.pixel(px, py) == old(
                tile_source,
            ).tile.image.pixel(px, py),
{
    let image_tile = tile_source.next_tile(x, y);
    let width = image_tile.width();
    let land_tile = LandTileQuad::new(width as u16, quad);
    render_land_tile(params, &land_tile, disp, image_tile)
}

/// Renders the rest of a walk over the quads of a landscape: moves the
/// sampler to each quad, takes the tile of the quad's cell from the source
/// and renders the quad into it. Stops at the first lookup that fails and
/// reports it with the cell.
pub fn render_landscape<'a, D: DispProvider>(
    land_iter: &mut LandPosIterator<'a, LandPosQ<'a>>,
    params: &GlobeTextureParams,
    disp_provider: &mut D,
    tile_source: &mut ImageSourceComposed<TiledComposer, Image>,
) -> (r: Result<(), TextureError>)
    requires
        old(land_iter).wf(),
        source_fits(
            old(tile_source),
            old(land_iter).landscape,
            old(tile_source).composer.tile_width as u16,
        ),
        old(tile_source).composer.tile_width <= 0xffff,
    ensures
        final(land_iter).landscape == old(land_iter).landscape,
        final(tile_source).composer == old(tile_source).composer,
        final(tile_source).tile.image.width == old(tile_source).tile.image.width,
        final(tile_source).tile.image.height == old(tile_source).tile.image.height,
        final(tile_source).tile.image.wf(),
        forall|q: &LandPosQuad| #[trigger]
            final(disp_provider).spec_update(q) == old(disp_provider).spec_update(q),
        r is Ok ==> forall|x: int, y: int|
            0 <= x < old(tile_source).tile.image.width && 0 <= y < old(
                tile_source,
            ).tile.image.height && !in_walked_cell(
                old(land_iter).landscape.spec_width() as int,
                old(tile_source).composer.tile_width as int,
                old(land_iter).pos_height as int,
                old(land_iter).pos_width as int,
                old(land_iter).landscape.spec_width() as int,
                0,
                x,
                y,
            ) ==> #[trigger] final(tile_source).tile.image.pixel(x, y) == old(
                tile_source,
            ).tile.image.pixel(x, y),
        r is Ok <==> landscape_error(
            params,
            old(land_iter).landscape,
            old(disp_provider),
            old(tile_source).composer.tile_width as u16,
            old(land_iter).pos_height as int,
            old(land_iter).pos_width as int,
        ) is None,
        r matches Err(e) ==> landscape_error(
            params,
            old(land_iter).landscape,
            old(disp_provider),
            old(tile_source).composer.tile_width as u16,
            old(land_iter).pos_height as int,
            old(land_iter).pos_width as int,
        ) == Some(e),
        r is Ok ==> final(land_iter).done() && forall|cy: int, cx: int, i: int, j: int|
            0 <= cy < old(land_iter).landscape.spec_width() && 0 <= cx < old(
                land_iter,
            ).landscape.spec_width() && 0 <= i < old(tile_source).composer.tile_width && 0 <= j
                < old(tile_source).composer.tile_width && at_or_after(
                cy,
                cx,
                old(land_iter).pos_height as int,
                old(land_iter).pos_width as int,
            ) ==> (#[trigger] cell_texel(
                params,
                old(land_iter).landscape,
                old(disp_provider),
                old(tile_source).composer.tile_width as u16,
                cy,
                cx,
                i,
                j,
            )) == Ok::<u8, LookupError>(
                final(tile_source).tile.image.pixel(
                    cx * old(tile_source).composer.tile_width + j,
                    cy * old(tile_source).composer.tile_width + i,
                ),
            ),
{
    let ghost land = land_iter.landscape;
    let ghost first = *disp_provider;
    let ghost n = tile_source.composer.tile_width as u16;
    let ghost side = land.spec_width() as int;
    let ghost sy = land_iter.pos_height as int;
    let ghost sx = land_iter.pos_width as int;
    loop
        invariant
            land_iter.wf(),
            land_iter.landscape == land,
            land == old(land_iter).landscape,
            side == land.spec_width(),
            n == old(tile_source).composer.tile_width,
            sy == old(land_iter).pos_height,
            sx == old(land_iter).pos_width,
            first == *old(disp_provider),
            tile_source.composer == old(tile_source).composer,
            tile_source.tile.image.width == old(tile_source).tile.image.width,
            tile_source.tile.image.height == old(tile_source).tile.image.height,
            source_fits(tile_source, land, n),
            old(land_iter).done() ==> land_iter.done(),
            !land_iter.done() ==> at_or_after(
                land_iter.pos_height as int,
                land_iter.pos_width as int,
                sy,
                sx,
            ),
            forall|q: &LandPosQuad| #[trigger] disp_provider.spec_update(q) == first.spec_update(q),
            landscape_error(params, land, &first, n, sy, sx) == landscape_error(
                params,
                land,
                &first,
                n,
                land_iter.pos_height as int,
                land_iter.pos_width as int,
            ),
            forall|cy: int, cx: int, i: int, j: int|
                0 <= cy < side && 0 <= cx < side && 0 <= i < n && 0 <= j < n && at_or_after(
                    cy,
                    cx,
                    sy,
                    sx,
                ) && !at_or_after(cy, cx, land_iter.pos_height as int, land_iter.pos_width as int)
                    ==> (#[trigger] cell_texel(params, land, &first, n, cy, cx, i, j)) == Ok::<
                    u8,
                    LookupError,
                >(tile_source.tile.image.pixel(cx * n + j, cy * n + i)),
            forall|x: int, y: int|
                0 <= x < tile_source.tile.image.width && 0 <= y < tile_source.tile.image.height
                    && !in_walked_cell(
                    side,
                    n as int,
                    sy,
                    sx,
                    land_iter.pos_height as int,
                    land_iter.pos_width as int,
                    x,
                    y,
                ) ==> #[trigger] tile_source.tile.image.pixel(x, y) == old(
                    tile_source,
                ).tile.image.pixel(x, y),
        ensures
            forall|x: int, y: int|
                0 <= x < tile_source.tile.image.width && 0 <= y < tile_source.tile.image.height
                    && !in_walked_cell(side, n as int, sy, sx, side, 0, x, y)
                    ==> #[trigger] tile_source.tile.image.pixel(x, y) == old(
                    tile_source,
                ).tile.image.pixel(x, y),
            land_iter.done(),
            land_iter.landscape == land,
            tile_source.composer == old(tile_source).composer,
            tile_source.tile.image.width == old(tile_source).tile.image.width,
            tile_source.tile.image.height == old(tile_source).tile.image.height,
            tile_source.tile.image.wf(),
            forall|q: &LandPosQuad| #[trigger] disp_provider.spec_update(q) == first.spec_update(q),
            landscape_error(params, land, &first, n, sy, sx) is None,
            forall|cy: int, cx: int, i: int, j: int|
                0 <= cy < side && 0 <= cx < side && 0 <= i < n && 0 <= j < n && at_or_after(
                    cy,
                    cx,
                    sy,
                    sx,
                ) ==> (#[trigger] cell_texel(params, land, &first, n, cy, cx, i, j)) == Ok::<
                    u8,
                    LookupError,
                >(tile_source.tile.image.pixel(cx * n + j, cy * n + i)),
        decreases
                land_iter.landscape.spec_width() - land_iter.pos_height,
                land_iter.landscape.spec_width() - land_iter.pos_width,
    {
        let ghost at_y = land_iter.pos_height as int;
        let ghost at_x = land_iter.pos_width as int;
        let (x, y, quad) = match land_iter.next() {
            Some(q) => q,
            None => {
                proof {
                    assert forall|x: int, y: int|
                        0 <= x < tile_source.tile.image.width && 0 <= y
                            < tile_source.tile.image.height && !in_walked_cell(
                            side,
                            n as int,
                            sy,
                            sx,
                            side,
                            0,
                            x,
                            y,
                        ) implies #[trigger] tile_source.tile.image.pixel(x, y) == old(
                        tile_source,
                    ).tile.image.pixel(x, y) by {
                        if in_walked_cell(
                            side,
                            n as int,
                            sy,
                            sx,
                            land_iter.pos_height as int,
                            land_iter.pos_width as int,
                            x,
                            y,
                        ) {
                            let (cy, cx) = choose|cy: int, cx: int|
                                0 <= cy < side && 0 <= cx < side && at_or_after(cy, cx, sy, sx)
                                    && !at_or_after(
                                    cy,
                                    cx,
                                    land_iter.pos_height as int,
                                    land_iter.pos_width as int,
                                ) && #[trigger] in_square(cx * n, cy * n, n as int, x, y);
                            assert(in_square(cx * n, cy * n, n as int, x, y));
                            assert(in_walked_cell(side, n as int, sy, sx, side, 0, x, y));
                        }
                    }
                }
                break ;
            },
        };
        let ghost moved_from = *disp_provider;
        disp_provider.update(params.disp0.as_slice(), &quad);
        proof {
            assert forall|q: &LandPosQuad| #[trigger]
                disp_provider.spec_update(q) == first.spec_update(q) by {
                moved_from.lemma_update_forgets(&quad, q);
            }
            assert(*disp_provider == first.spec_update(&land.quad(at_y, at_x)));
            lemma_tile_place(n as int, side, at_x, 0, at_x);
            lemma_tile_place(n as int, side, at_y, 0, at_y);
        }
        let ghost image_before = tile_source.tile.image;
        match render_cell(params, &quad, x, y, disp_provider, tile_source) {
            Err(e) => {
                proof {
                    assert(cell_error(params, land, &first, n, at_y, at_x) == Some(e));
                    assert(landscape_error(params, land, &first, n, at_y, at_x) == Some(
                        spec_located(e, x, y),
                    ));
                }
                return Err(located(e, x, y));
            },
            Ok(()) => {},
        }
        proof {
            lemma_error_step(params, land, &first, n, at_y, at_x);
            lemma_cell_rendered(
                params,
                land,
                &first,
                n,
                sy,
                sx,
                at_y,
                at_x,
                land_iter.pos_height as int,
                land_iter.pos_width as int,
                old(tile_source).tile.image,
                image_before,
                tile_source.tile.image,
            );
        }
    }
    Ok(())
}

/// Renders the land texture into the tiles of `tile_source`, which must
/// hand out a tile of 32 by 32 pixels for every cell.
pub fn texture_land_provider(
    land: &LandscapeFull,
    params: &GlobeTextureParams,
    tile_source: &mut ImageSourceComposed<TiledComposer, Image>,
) -> (r: Result<(), TextureError>)
    requires
        land.wf(),
        source_fits(old(tile_source), land, LAND_TILE),
    ensures
        final(tile_source).composer == old(tile_source).composer,
        final(tile_source).tile.image.width == old(tile_source).tile.image.width,
        final(tile_source).tile.image.height == old(tile_source).tile.image.height,
        final(tile_source).tile.image.wf(),
        r is Ok ==> forall|x: int, y: int|
            0 <= x < old(tile_source).tile.image.width && 0 <= y < old(
                tile_source,
            ).tile.image.height && !in_walked_cell(
                land.spec_width() as int,
                LAND_TILE as int,
                0,
                0,
                land.spec_width() as int,
                0,
                x,
                y,
            ) ==> #[trigger] final(tile_source).tile.image.pixel(x, y) == old(
                tile_source,
            ).tile.image.pixel(x, y),
        r is Ok <==> landscape_error(
            params,
            land,
            &DispProvider32::spec_start(&params.disp0),
            LAND_TILE,
            0,
            0,
        ) is None,
        r matches Err(e) ==> landscape_error(
            params,
            land,
            &DispProvider32::spec_start(&params.disp0),
            LAND_TILE,
            0,
            0,
        ) == Some(e),
        r is Ok ==> forall|cy: int, cx: int, i: int, j: int|
            0 <= cy < land.spec_width() && 0 <= cx < land.spec_width() && 0 <= i < LAND_TILE && 0
                <= j < LAND_TILE ==> (#[trigger] cell_texel(
                params,
                land,
                &DispProvider32::spec_start(&params.disp0),
                LAND_TILE,
                cy,
                cx,
                i,
                j,
            )) == Ok::<u8, LookupError>(
                final(tile_source).tile.image.pixel(cx * LAND_TILE + j, cy * LAND_TILE + i),
            ),
{
    let mut disp = DispProvider32::new(&params.disp0);
    let mut land_iter = land.iter_quad();
    render_landscape(&mut land_iter, params, &mut disp, tile_source)
}

/// Makes the land texture of a landscape: 32 by 32 texels for each cell,
/// the tile of the cell at row `cy`, column `cx` at column `cx * 32`, row
/// `cy * 32` of the image. `width` is the side of the landscape.
pub fn texture_land(width: usize, land: &LandscapeFull, params: &GlobeTextureParams) -> (r: Result<
    Image,
    TextureError,
>)
    requires
        land.wf(),
        (width * LAND_TILE) * (width * LAND_TILE) <= usize::MAX,
    ensures
        width != land.spec_width() ==> r == Err::<Image, TextureError>(
            TextureError::InputShape {
                table: TableName::LandGrid,
                expected: land.spec_width(),
                actual: width,
            },
        ),
        width == land.spec_width() ==> tiled_texture_is(
            land,
            params,
            &DispProvider32::spec_start(&params.disp0),
            LAND_TILE,
            r,
        ),
        width == land.spec_width() && params.wf() ==> r is Ok,
{
    proof {
        if params.wf() {
            law_land_tables_suffice(land, params);
        }
    }
    if width != land.land_size() {
        return Err(
            TextureError::InputShape {
                table: TableName::LandGrid,
                expected: land.land_size(),
                actual: width,
            },
        );
    }
    proof {
        assert(width * LAND_TILE <= usize::MAX) by (nonlinear_arith)
            requires
                (width * LAND_TILE) * (width * LAND_TILE) <= usize::MAX,
        ;
    }
    let mut tile_source = {
        let n: usize = 32;
        let image = Image::allocate(width * n, width * n);
        let composer = TiledComposer::new(width * n, width * n, n, n);
        ImageSourceComposed::new(composer, image)
    };
    match texture_land_provider(land, params, &mut tile_source) {
        Err(e) => Err(e),
        Ok(()) => Ok(tile_source.get_image()),
    }
}

/// `r` is what making a texture of `n` by `n` texels per cell comes to,
/// with the sampler `start` moved from cell to cell: the image of all the
/// texels, the tile of the cell at row `cy`, column `cx` at column `cx * n`,
/// row `cy * n`; or the first lookup that fails.
pub open spec fn tiled_texture_is<D: DispProvider>(
    land: &LandscapeFull,
    params: &GlobeTextureParams,
    start: &D,
    n: u16,
    r: Result<Image, TextureError>,
) -> bool {
    match r {
        Err(e) => landscape_error(params, land, start, n, 0, 0) == Some(e),
        Ok(image) => {
            &&& landscape_error(params, land, start, n, 0, 0) is None
            &&& image.width == land.spec_width() * n
            &&& image.height == land.spec_width() * n
            &&& image.wf()
            &&& forall|cy: int, cx: int, i: int, j: int|
                0 <= cy < land.spec_width() && 0 <= cx < land.spec_width() && 0 <= i < n && 0 <= j
                    < n ==> (#[trigger] cell_texel(params, land, start, n, cy, cx, i, j)) == Ok::<
                    u8,
                    LookupError,
                >(image.pixel(cx * n + j, cy * n + i))
        },
    }
}


/// What the displacement adds to a texel's index is the product of the
/// height multiplier and the displacement in whole 1024ths, rounded down,
/// times 256.
pub proof fn lemma_static_component(multiplier: u16, disp_raw: i8)
    ensures
        static_component(multiplier, disp_raw) == ((multiplier * disp_raw) / 1024) * 256,
{
    lemma_product_bound(multiplier as int, disp_raw as int, 0xffff, 128);
    let product: i32 = (multiplier * disp_raw) as i32;
    assert(((((product as u32) & 0xfffffc03u32) as i32) >> 2) == (product / 1024) * 256)
        by (bit_vector)
        requires
            -0x800000 <= product <= 0x800000,
    ;
}

/// What the height adds to a texel's index is the height times 256.
pub proof fn lemma_height_component(height: int)
    requires
        0 <= height <= 0xffff,
    ensures
        height_component(height) == height * 256,
{
    let h: i32 = height as i32;
    assert((((h * 256) as i32) & 0x7fffff00i32) == h * 256) by (bit_vector)
        requires
            0 <= h <= 0xffff,
    ;
}

/// With tables of the documented sizes, a texel whose displacements are
/// found is found: the index into `bigf0` stays below 1152 * 256 and is not
/// negative, and the index into `cliff0` stays below 256 * 128.
pub proof fn lemma_texel_in_bounds<D: DispProvider>(
    params: &GlobeTextureParams,
    tile: &LandTileQuad,
    disp: &D,
    i: usize,
    j: usize,
)
    requires
        params.wf(),
        tile.wf(),
        i < tile.width,
        j < tile.width,
        disp.spec_val(i, j) is Ok,
        disp.spec_val_adjacent(i, j) is Ok,
    ensures
        land_texel(params, tile, disp, i, j) is Ok,
{
    let n = tile.width as int;
    let scale = n * n;
    let q = tile.pos;
    let h1 = crate::pop::landscape::common::effective_height(q.p1.height, q.p1.c_1, q.p1.land_adj);
    let h2 = crate::pop::landscape::common::effective_height(q.p2.height, q.p2.c_1, q.p2.land_adj);
    let h3 = crate::pop::landscape::common::effective_height(q.p3.height, q.p3.c_1, q.p3.land_adj);
    let h4 = crate::pop::landscape::common::effective_height(q.p4.height, q.p4.c_1, q.p4.land_adj);
    assert(scale > 0) by (nonlinear_arith)
        requires
            n > 0,
            scale == n * n,
    ;
    // The height stays between the lowest and the highest effective height.
    lemma_inc_line_interpolates(h1, h2, h3, h4, n, i as int, j as int);
    lemma_interpolated_bounds(h1, h2, h3, h4, n, i as int, j as int, 0x4b, 0x400);
    let height_scaled = tile.height_inc.spec_inc_line(i as int, j as int);
    lemma_quotient_bounds(height_scaled, scale, 0x4b, 0x400);
    let height = texel_height(tile, i as int, j as int);
    assert(height == height_scaled / scale);
    assert(0x4b <= height <= 0x400);
    // The edge stays below 64.
    lemma_scaled_bounds(
        q.p1.c_1 as int,
        q.p2.c_1 as int,
        q.p3.c_1 as int,
        q.p4.c_1 as int,
        n,
        i as int,
        j as int,
        255,
    );
    let c1 = tile.c1_inc.spec_inc_line(i as int, j as int);
    lemma_quotient_bounds(c1, 4 * scale, 0, 63);
    let edge = texel_edge(c1, scale);
    assert(0 <= edge <= 63);
    let adjacent = disp.spec_val_adjacent(i, j)->Ok_0;
    let b_dist = brightness_distance(
        adjacent as int,
        tile.brightness_inc.spec_inc_line(i as int, j as int),
        scale,
    );
    assert(0 <= b_dist <= 255);
    let disp_raw = disp.spec_val(i, j)->Ok_0;
    let multiplier = params.static_landscape_array[height];
    assert(multiplier == crate::pop::level::static_multiplier(height));
    lemma_static_component(multiplier, disp_raw);
    lemma_height_component(height);
    lemma_product_bound(multiplier as int, disp_raw as int, 1024, 128);
    let product = multiplier * disp_raw;
    if height < 128 {
        assert(product == 0x140 * disp_raw);
    } else if height < 362 {
        lemma_product_bound(multiplier as int, disp_raw as int, 1016, 128);
    } else {
        assert(product == 1024 * disp_raw);
    }
    let big_index = static_component(multiplier, disp_raw) + height_component(height) + b_dist;
    assert(0 <= big_index < 1152 * 256);
}

/// The sampler for tiles of 32 by 32 texels stays inside a displacement
/// field of the documented size, wherever it is moved to and whatever it is
/// asked for: what lies behind an edge of the field is read from its
/// opposite edge.
pub proof fn lemma_field_is_torus(disp: &DispProvider32, row: int, col: int)
    requires
        disp.disp.len() == crate::pop::level::DISP_LEN,
        0 <= row,
        0 <= col,
    ensures
        0 <= disp.sample_index(row, col) < crate::pop::level::DISP_LEN,
        disp.sample(row, col) is Ok,
        disp.sample_index(row + 256, col) == disp.sample_index(row, col),
        disp.sample_index(row, col + 256) == disp.sample_index(row, col),
{
}

/// With tables of the documented sizes, no lookup of the land texture
/// fails, whatever the landscape.
pub proof fn law_land_tables_suffice(land: &LandscapeFull, params: &GlobeTextureParams)
    requires
        land.wf(),
        params.wf(),
    ensures
        landscape_error(
            params,
            land,
            &DispProvider32::spec_start(&params.disp0),
            LAND_TILE,
            0,
            0,
        ) is None,
{
    let start = DispProvider32::spec_start(&params.disp0);
    assert forall|r: int, c: int|
        0 <= r < land.spec_width() && 0 <= c < land.spec_width() implies (#[trigger] cell_error(
        params,
        land,
        &start,
        LAND_TILE,
        r,
        c,
    )) is None by {
        let tile = cell_tile(land, LAND_TILE, r, c);
        let disp = start.spec_update(&land.quad(r, c));
        assert forall|i: int, j: int| 0 <= i < tile.width && 0 <= j < tile.width implies (
        #[trigger] land_texel(params, &tile, &disp, i as usize, j as usize)) is Ok by {
            lemma_field_is_torus(&disp, i, j);
            lemma_field_is_torus(&disp, i + 1, j + 1);
            lemma_field_is_torus(&disp, i, j + 1);
            lemma_texel_in_bounds(params, &tile, &disp, i as usize, j as usize);
        }
        lemma_tile_without_error(params, &tile, &disp, 0, 0);
    }
    lemma_landscape_without_error(params, land, &start, LAND_TILE, 0, 0);
}


/// A tiled texture is determined by the landscape, the tables and the
/// sampler: whatever meets its description is the same image, or the same
/// failure.
pub proof fn law_tiled_texture_determined<D: DispProvider>(
    land: &LandscapeFull,
    params: &GlobeTextureParams,
    start: &D,
    n: u16,
    first: Result<Image, TextureError>,
    second: Result<Image, TextureError>,
)
    requires
        n > 0,
        tiled_texture_is(land, params, start, n, first),
        tiled_texture_is(land, params, start, n, second),
    ensures
        same_texture(first, second),
{
    if let (Ok(a), Ok(b)) = (first, second) {
        let side = land.spec_width() as int;
        assert forall|x: int, y: int| 0 <= x < a.width && 0 <= y < a.height implies #[trigger] a.pixel(
            x,
            y,
        ) == b.pixel(x, y) by {
            lemma_split(x, n as int, side);
            lemma_split(y, n as int, side);
            let cx = x / (n as int);
            let j = x % (n as int);
            let cy = y / (n as int);
            let i = y % (n as int);
            let t = cell_texel(params, land, start, n, cy, cx, i, j);
            assert(t == Ok::<u8, LookupError>(a.pixel(cx * n + j, cy * n + i)));
            assert(t == Ok::<u8, LookupError>(b.pixel(cx * n + j, cy * n + i)));
        }
        lemma_image_by_pixels(&a, &b);
    }
}

} // verus!
