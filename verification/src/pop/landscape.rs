//! Terrain texture synthesis.

pub mod common;
pub mod disp;
pub mod globe;
pub mod land;
pub mod minimap;
pub mod water;

use vstd::prelude::*;
use crate::pop::error::TextureError;
use crate::pop::landscape::common::{LandPos, LandscapeFull};
use crate::pop::landscape::land::{texture_land, tiled_texture_is, DispProvider32, LAND_TILE};
use crate::pop::level::{grid_at, LevelRes};
use crate::pop::types::{min_of, Image};

verus! {

/// The last colour of the palette that a texture is drawn with.
pub const LAST_COLOUR: usize = 127;

/// Where the colour of palette index `index` starts in a palette of four
/// bytes per colour. Indices above the last colour get the last colour.
pub open spec fn colour_at(index: u8) -> int {
    min_of(index as int, LAST_COLOUR as int) * 4
}

/// The palette holds every colour that the texture asks for.
pub open spec fn colours_found(pal: Seq<u8>, width: int, texture: Seq<u8>) -> bool {
    forall|k: int| 0 <= k < width * width ==> colour_at(#[trigger] texture[k]) + 2 < pal.len()
}

/// Where byte `c` of the colour of pixel `k` lies in an image of three
/// bytes per pixel.
pub open spec fn rgb_at(k: int, c: int) -> int {
    3 * k + c
}

/// Where byte `c` of the colour of pixel `k` lies in an image of four
/// bytes per pixel.
pub open spec fn rgba_at(k: int, c: int) -> int {
    4 * k + c
}

/// Draws a square texture of palette indices as red, green and blue bytes.
pub fn draw_texture_u8(pal: &[u8], width: usize, texture: &[u8]) -> (img: Vec<u8>)
    requires
        3 * (width * width) <= usize::MAX,
        width * width <= texture@.len(),
        colours_found(pal@, width as int, texture@),
    ensures
        img.len() == 3 * (width * width),
        forall|k: int, c: int|
            0 <= k < width * width && 0 <= c < 3 ==> #[trigger] img[rgb_at(k, c)]
                == pal@[colour_at(texture@[k]) + c],
{
    let area: usize = width * width;
    let mut img: Vec<u8> = vec![0u8; 3 * area];
    let pal_len = pal.len();
    let texture_len = texture.len();
    let mut i: usize = 0;
    while i < width
        invariant
            i <= width,
            area == width * width,
            pal_len == pal@.len(),
            texture_len == texture@.len(),
            3 * area <= usize::MAX,
            area <= texture@.len(),
            colours_found(pal@, width as int, texture@),
            img.len() == 3 * area,
            forall|k: int, c: int|
                0 <= k < i * width && 0 <= c < 3 ==> #[trigger] img[rgb_at(k, c)]
                    == pal@[colour_at(texture@[k]) + c],
        decreases width - i,
    {
        let mut j: usize = 0;
        proof {
            crate::pop::level::lemma_cell_in_grid(i as int, 0, width as int);
        }
        let row: usize = i * width;
        while j < width
            invariant
                j <= width,
                i < width,
                row == i * width,
                area == width * width,
                pal_len == pal@.len(),
                texture_len == texture@.len(),
                3 * area <= usize::MAX,
                area <= texture@.len(),
                row + width <= area,
                colours_found(pal@, width as int, texture@),
                img.len() == 3 * area,
                forall|k: int, c: int|
                    0 <= k < row + j && 0 <= c < 3 ==> #[trigger] img[rgb_at(k, c)]
                        == pal@[colour_at(texture@[k]) + c],
            decreases width - j,
        {
            let at: usize = row + j;
            let palette_index = texture[at] as usize;
            let palette_index = if palette_index < 127 {
                palette_index
            } else {
                127
            } * 4;
            assert(palette_index == colour_at(texture@[at as int]));
            let img_index = 3 * at;
            let ghost before = img@;
            img[img_index] = pal[palette_index];
            img[img_index + 1] = pal[palette_index + 1];
            img[img_index + 2] = pal[palette_index + 2];
            proof {
                assert forall|k: int, c: int| 0 <= k < at + 1 && 0 <= c < 3 implies #[trigger] img[rgb_at(
                    k,
                    c,
                )] == pal@[colour_at(texture@[k]) + c] by {
                    if k < at {
                        assert(img[rgb_at(k, c)] == before[rgb_at(k, c)]);
                    }
                }
            }
            j += 1;
        }
        proof {
            assert(i * width + width == (i + 1) * width) by (nonlinear_arith);
        }
        i += 1;
    }
    img
}

/// The cells of a landscape lit by the sun, as `LandPos::from_landscape_sun`
/// makes them, are the cells of `land`.
pub open spec fn is_sunlit_land(level_res: &LevelRes, land: &LandscapeFull) -> bool {
    &&& land.wf()
    &&& land.spec_width() == 128
    &&& forall|i: int, j: int|
        0 <= i < 128 && 0 <= j < 128 ==> #[trigger] land.cells()[grid_at(i, j, 128)]
            == LandPos::sunlit(
            level_res.landscape.at(i, j),
            level_res.landscape.land_adjacent(i, j),
            level_res.landscape.around(i + 1, j),
            level_res.landscape.around(i, j + 1),
        )
}

/// The land texture of a level: its landscape lit by the sun and drawn
/// with its tables, as the bytes of the image or the first lookup that
/// fails.
pub fn make_texture_land(level_res: &LevelRes, _tex_move: Option<(u32, u32)>) -> (r: Result<
    Vec<u8>,
    TextureError,
>)
    ensures
        exists|land: LandscapeFull, image: Result<Image, TextureError>|
            {
                &&& #[trigger] is_sunlit_land(level_res, &land)
                &&& #[trigger] tiled_texture_is(
                    &land,
                    &level_res.params,
                    &DispProvider32::spec_start(&level_res.params.disp0),
                    LAND_TILE,
                    image,
                )
                &&& match (r, image) {
                    (Ok(data), Ok(img)) => data == img.data,
                    (Err(e), Err(f)) => e == f,
                    _ => false,
                }
            },
        level_res.params.wf() ==> r is Ok,
{
    let land_size = level_res.landscape.land_size();
    let params_globe = &level_res.params;
    let land = LandPos::from_landscape_sun(&level_res.landscape);
    let landscape = LandscapeFull::new(land_size, land);
    assert((land_size * LAND_TILE) * (land_size * LAND_TILE) == 0x100_0000) by {
        assert(land_size * LAND_TILE == 0x1000);
        assert(0x1000 * 0x1000 == 0x100_0000) by (nonlinear_arith);
    }
    let image = texture_land(land_size, &landscape, params_globe);
    proof {
        assert(is_sunlit_land(level_res, &landscape));
        assert(tiled_texture_is(
            &landscape,
            &level_res.params,
            &DispProvider32::spec_start(&level_res.params.disp0),
            LAND_TILE,
            image,
        ));
    }
    match image {
        Ok(img) => Ok(img.data),
        Err(e) => Err(e),
    }
}


/// The first 255 colours of a palette of four bytes per colour, as red,
/// green and blue; the last colour is black.
pub fn seq_to_pal(pal: &[u8]) -> (pal_tup: [(u8, u8, u8); 256])
    requires
        pal@.len() >= 254 * 4 + 3,
    ensures
        forall|i: int|
            0 <= i < 255 ==> #[trigger] pal_tup@[i] == (pal@[i * 4], pal@[i * 4 + 1], pal@[i * 4 + 2]),
        pal_tup@[255] == (0u8, 0u8, 0u8),
{
    let mut pal_tup = [(0u8, 0u8, 0u8); 256];
    let len = pal.len();
    let mut i: usize = 0;
    while i < 255
        invariant
            i <= 255,
            len == pal@.len(),
            pal@.len() >= 254 * 4 + 3,
            forall|k: int|
                0 <= k < i ==> #[trigger] pal_tup@[k] == (pal@[k * 4], pal@[k * 4 + 1], pal@[k * 4 + 2]),
            pal_tup@[255] == (0u8, 0u8, 0u8),
        decreases 255 - i,
    {
        let pi = i * 4;
        pal_tup[i] = (pal[pi], pal[pi + 1], pal[pi + 2]);
        i += 1;
    }
    pal_tup
}


/// Tells whether the palette holds every colour that the texture asks for.
pub fn palette_fits(pal: &[u8], width: usize, texture: &[u8]) -> (b: bool)
    requires
        width * width <= texture@.len(),
    ensures
        b == colours_found(pal@, width as int, texture@),
{
    let texture_len = texture.len();
    let area: usize = width * width;
    let len = pal.len();
    let mut k: usize = 0;
    while k < area
        invariant
            k <= area,
            area == width * width,
            area <= texture@.len(),
            len == pal@.len(),
            forall|m: int| 0 <= m < k ==> colour_at(#[trigger] texture@[m]) + 2 < pal@.len(),
        decreases area - k,
    {
        let index = texture[k] as usize;
        let at = if index < 127 {
            index
        } else {
            127
        } * 4;
        if at + 2 >= len {
            assert(!(colour_at(texture@[k as int]) + 2 < pal@.len()));
            return false;
        }
        k += 1;
    }
    true
}


/// Where byte `c` of the pixel at column `x`, row `y` lies in an image of
/// `width` pixels a row and three bytes a pixel.
pub open spec fn bar_place(width: int, x: int, y: int, c: int) -> int {
    (y * width + x) * 3 + c
}

/// Byte `c` of the pixel at row `y` of the picture of a palette: the colours
/// one below the other, each a bar of the same height; what is left below
/// the last bar is black.
pub open spec fn bar_colour(pal: Seq<u8>, height: int, num_colors: int, y: int, c: int) -> u8 {
    let color_height = height / num_colors;
    if y < num_colors * color_height {
        pal[(y / color_height) * 4 + c]
    } else {
        0u8
    }
}

/// Draws the first `num_colors` colours of a palette as bars across an image
/// of red, green and blue bytes.
pub fn draw_palette(pal: &[u8], width: u32, height: u32, num_colors: u32) -> (img: Vec<u8>)
    requires
        num_colors > 0,
        4 * (num_colors - 1) + 3 <= pal@.len(),
    ensures
        img.len() == 3 * (width * height),
        forall|x: int, y: int, c: int|
            0 <= x < width && 0 <= y < height && 0 <= c < 3 ==> #[trigger] img[bar_place(
                width as int,
                x,
                y,
                c,
            )] == bar_colour(pal@, height as int, num_colors as int, y, c),
{
    let color_height: u32 = height / num_colors;
    let colours: usize = pal.len();
    let mut img: Vec<u8> = Vec::new();
    let mut y: u32 = 0;
    while y < height
        invariant
            y <= height,
            num_colors > 0,
            colours == pal@.len(),
            4 * (num_colors - 1) + 3 <= pal@.len(),
            color_height == height / num_colors,
            img.len() == 3 * (y * width),
            forall|x: int, row: int, c: int|
                0 <= x < width && 0 <= row < y && 0 <= c < 3 ==> #[trigger] img[bar_place(
                    width as int,
                    x,
                    row,
                    c,
                )] == bar_colour(pal@, height as int, num_colors as int, row, c),
        decreases height - y,
    {
        proof {
            lemma_bar_of_row(y as int, height as int, num_colors as int);
        }
        let colour: (u8, u8, u8) = if color_height > 0 && y / color_height < num_colors {
            let at: usize = (y / color_height) as usize * 4;
            (pal[at], pal[at + 1], pal[at + 2])
        } else {
            (0, 0, 0)
        };
        let mut x: u32 = 0;
        while x < width
            invariant
                x <= width,
                y < height,
                img.len() == 3 * (y * width + x),
                colour.0 == bar_colour(pal@, height as int, num_colors as int, y as int, 0),
                colour.1 == bar_colour(pal@, height as int, num_colors as int, y as int, 1),
                colour.2 == bar_colour(pal@, height as int, num_colors as int, y as int, 2),
                forall|col: int, row: int, c: int|
                    0 <= col < width && 0 <= c < 3 && (0 <= row < y || (row == y && col < x))
                        ==> #[trigger] img[bar_place(width as int, col, row, c)] == bar_colour(
                        pal@,
                        height as int,
                        num_colors as int,
                        row,
                        c,
                    ),
            decreases width - x,
        {
            let ghost before = img@;
            img.push(colour.0);
            img.push(colour.1);
            img.push(colour.2);
            proof {
                assert forall|col: int, row: int, c: int|
                    0 <= col < width && 0 <= c < 3 && (0 <= row < y || (row == y && col < x
                        + 1)) implies #[trigger] img[bar_place(width as int, col, row, c)]
                    == bar_colour(pal@, height as int, num_colors as int, row, c) by {
                    if row < y {
                        lemma_row_before(width as int, col, row, y as int);
                    }
                    if row < y || col < x {
                        assert(img[bar_place(width as int, col, row, c)] == before[bar_place(
                            width as int,
                            col,
                            row,
                            c,
                        )]);
                    }
                }
            }
            x += 1;
        }
        proof {
            assert((y + 1) * width == y * width + width) by (nonlinear_arith);
        }
        y += 1;
    }
    proof {
        assert(height * width == width * height) by (nonlinear_arith);
    }
    img
}

/// A pixel of an earlier row lies before every pixel of a later row.
proof fn lemma_row_before(w: int, x: int, row: int, y: int)
    by (nonlinear_arith)
    requires
        0 <= x < w,
        0 <= row < y,
    ensures
        0 <= row * w,
        row * w + x < y * w,
{
}

/// Row `y` lies in one of the `n` bars of an image of height `h` exactly
/// when the bars have a height and the row divided by it is below `n`; the
/// palette has the colour of that bar.
proof fn lemma_bar_of_row(y: int, h: int, n: int)
    requires
        0 <= y < h,
        0 < n,
    ensures
        y < n * (h / n) <==> (h / n > 0 && y / (h / n) < n),
        y < n * (h / n) ==> 0 <= (y / (h / n)) * 4 && (y / (h / n)) * 4 + 2 < 4 * (n - 1) + 3,
{
    let bar = h / n;
    assert(0 <= bar) by (nonlinear_arith)
        requires
            bar == h / n,
            0 <= h,
            0 < n,
    ;
    if bar > 0 {
        vstd::arithmetic::div_mod::lemma_fundamental_div_mod(y, bar);
        vstd::arithmetic::div_mod::lemma_mod_bound(y, bar);
        let q = y / bar;
        assert(0 <= q) by (nonlinear_arith)
            requires
                q == y / bar,
                0 <= y,
                0 < bar,
        ;
        assert(y < n * bar <==> q < n) by (nonlinear_arith)
            requires
                y == bar * q + y % bar,
                0 <= y % bar < bar,
                0 < bar,
        ;
    } else {
        assert(n * bar == 0) by (nonlinear_arith)
            requires
                bar == 0,
        ;
    }
}

} // verus!
