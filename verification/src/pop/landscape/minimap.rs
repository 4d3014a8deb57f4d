//! The minimap: one texel for each cell, looked up without interpolation.

use vstd::prelude::*;
use crate::pop::error::{located, lookup, spec_located, spec_lookup, LookupError, TableName, TextureError};
use crate::pop::landscape::common::{LandPos, LandPosIterator, LandPosPoint, LandscapeFull};
use crate::pop::landscape::land::{at_or_after, lemma_pixel_place, next_column, next_row};
use crate::pop::types::{lemma_image_by_pixels, min_of, same_texture, Image, ImageStorage};

verus! {

/// The bit of a cell's flags that marks land and coast.
pub const FLAG_LAND: u32 = 8;

/// A cell is drawn if all cells are, or if it is marked as land or coast.
pub open spec fn minimap_draws(flag: bool, pos: LandPos) -> bool {
    flag || (pos.flags & FLAG_LAND) != 0
}

/// Where the texel of a cell lies in `bigf0`. A cell without a cliff marker
/// reads the row of its height, 0x78 rows up, at column 0x40. A cell with
/// one reads the row of its height, 0x8c rows up and not above row 0x47f,
/// as many rows further as it is bright; behind the end of the table it
/// reads the last entry.
pub open spec fn minimap_index(pos: LandPos, len: int) -> int {
    if pos.c_1 == 0 {
        0x7840 + pos.height * 0x100
    } else {
        let v = min_of(pos.height + 0x8c, 0x47f);
        min_of(v * 0x100 + pos.brightness * 0x100, len - 1)
    }
}

/// The texel of a cell, or the lookup that fails: the entry of `bigf0` for
/// a cell that is drawn, 0 for one that is not.
pub open spec fn minimap_texel(flag: bool, pos: LandPos, bigf0: Seq<u8>) -> Result<
    u8,
    LookupError,
> {
    if minimap_draws(flag, pos) {
        spec_lookup(bigf0, TableName::Bigf0, minimap_index(pos, bigf0.len() as int))
    } else {
        Ok(0u8)
    }
}

/// Computes the texel of a cell.
pub fn minimap_pixel(flag: bool, land_pos: &LandPos, bigf0: &[u8]) -> (r: Result<u8, LookupError>)
    ensures
        r == minimap_texel(flag, *land_pos, bigf0@),
{
    let default_val: u8 = 0;
    if flag || ((land_pos.flags & 8) != 0) {
        if land_pos.c_1 == 0 {
            lookup(bigf0, TableName::Bigf0, 0x7840 + (land_pos.height as i64) * 0x100)
        } else {
            let v: i64 = {
                let v = land_pos.height as i64 + 0x8c;
                if v > 0x47f {
                    0x47f
                } else {
                    v
                }
            };
            let index: i64 = {
                let index = v * 0x100 + (land_pos.brightness as i64) * 0x100;
                if bigf0.len() as u64 <= index as u64 {
                    bigf0.len() as i64 - 1
                } else {
                    index
                }
            };
            lookup(bigf0, TableName::Bigf0, index)
        }
    } else {
        Ok(default_val)
    }
}

/// The first failed lookup among the cells from row `cy`, column `cx` on, in
/// the order of the walk, with the column and the row of its cell.
pub open spec fn minimap_error(
    flag: bool,
    land: &LandscapeFull,
    bigf0: Seq<u8>,
    cy: int,
    cx: int,
) -> Option<TextureError>
    decreases land.spec_width() - cy, land.spec_width() - cx,
{
    if cy < 0 || cx < 0 || cy >= land.spec_width() {
        None
    } else if cx >= land.spec_width() {
        minimap_error(flag, land, bigf0, cy + 1, 0)
    } else {
        match minimap_texel(flag, land.cell(cy, cx), bigf0) {
            Err(e) => Some(spec_located(e, cx as usize, cy as usize)),
            Ok(_) => minimap_error(flag, land, bigf0, cy, cx + 1),
        }
    }
}

/// Past a cell whose texel is found, the first failed lookup is that of the
/// rest of the walk.
proof fn lemma_minimap_step(flag: bool, land: &LandscapeFull, bigf0: Seq<u8>, cy: int, cx: int)
    requires
        0 <= cy < land.spec_width(),
        0 <= cx < land.spec_width(),
        minimap_texel(flag, land.cell(cy, cx), bigf0) is Ok,
    ensures
        minimap_error(flag, land, bigf0, cy, cx) == minimap_error(
            flag,
            land,
            bigf0,
            next_row(land.spec_width() as int, cy, cx),
            next_column(land.spec_width() as int, cy, cx),
        ),
{
    assert(minimap_error(flag, land, bigf0, cy, cx) == minimap_error(flag, land, bigf0, cy, cx + 1));
    if cx + 1 >= land.spec_width() {
        assert(minimap_error(flag, land, bigf0, cy, cx + 1) == minimap_error(
            flag,
            land,
            bigf0,
            cy + 1,
            0,
        ));
    }
}

/// Writes the texels of the rest of a walk over the cells of a landscape:
/// the texel of the cell at row `cy`, column `cx` to column `cx`, row `cy`
/// of `storage`. Stops at the first lookup that fails and reports it with
/// the cell. With `flag` set every cell is drawn, else the cells that are
/// marked as land or coast, and the others are written as 0.
pub fn texture_minimap_storage<'a>(
    flag: bool,
    land_iter: &mut LandPosIterator<'a, LandPosPoint<'a>>,
    bigf0: &[u8],
    storage: &mut Image,
) -> (r: Result<(), TextureError>)
    requires
        old(land_iter).wf(),
        old(storage).wf(),
        old(land_iter).landscape.spec_width() <= old(storage).width,
        old(land_iter).landscape.spec_width() <= old(storage).height,
    ensures
        final(land_iter).landscape == old(land_iter).landscape,
        final(storage).width == old(storage).width,
        final(storage).height == old(storage).height,
        final(storage).wf(),
        r is Ok <==> minimap_error(
            flag,
            old(land_iter).landscape,
            bigf0@,
            old(land_iter).pos_height as int,
            old(land_iter).pos_width as int,
        ) is None,
        r matches Err(e) ==> minimap_error(
            flag,
            old(land_iter).landscape,
            bigf0@,
            old(land_iter).pos_height as int,
            old(land_iter).pos_width as int,
        ) == Some(e),
        r is Ok ==> final(land_iter).done() && forall|x: int, y: int|
            0 <= x < old(storage).width && 0 <= y < old(storage).height ==> (if x < old(
                land_iter,
            ).landscape.spec_width() && y < old(land_iter).landscape.spec_width() && at_or_after(
                y,
                x,
                old(land_iter).pos_height as int,
                old(land_iter).pos_width as int,
            ) {
                minimap_texel(flag, old(land_iter).landscape.cell(y, x), bigf0@) == Ok::<
                    u8,
                    LookupError,
                >(#[trigger] final(storage).pixel(x, y))
            } else {
                final(storage).pixel(x, y) == old(storage).pixel(x, y)
            }),
{
    let ghost land = land_iter.landscape;
    let ghost side = land.spec_width() as int;
    let ghost sy = land_iter.pos_height as int;
    let ghost sx = land_iter.pos_width as int;
    loop
        invariant
            land_iter.wf(),
            land_iter.landscape == land,
            land == old(land_iter).landscape,
            side == land.spec_width(),
            sy == old(land_iter).pos_height,
            sx == old(land_iter).pos_width,
            storage.width == old(storage).width,
            storage.height == old(storage).height,
            storage.wf(),
            side <= storage.width,
            side <= storage.height,
            old(land_iter).done() ==> land_iter.done(),
            !land_iter.done() ==> at_or_after(
                land_iter.pos_height as int,
                land_iter.pos_width as int,
                sy,
                sx,
            ),
            minimap_error(flag, land, bigf0@, sy, sx) == minimap_error(
                flag,
                land,
                bigf0@,
                land_iter.pos_height as int,
                land_iter.pos_width as int,
            ),
            forall|x: int, y: int|
                0 <= x < storage.width && 0 <= y < storage.height ==> (if x < side && y < side
                    && at_or_after(y, x, sy, sx) && !at_or_after(
                    y,
                    x,
                    land_iter.pos_height as int,
                    land_iter.pos_width as int,
                ) {
                    minimap_texel(flag, land.cell(y, x), bigf0@) == Ok::<u8, LookupError>(
                        #[trigger] storage.pixel(x, y),
                    )
                } else {
                    storage.pixel(x, y) == old(storage).pixel(x, y)
                }),
        ensures
            land_iter.done(),
            land_iter.landscape == land,
            storage.width == old(storage).width,
            storage.height == old(storage).height,
            storage.wf(),
            minimap_error(flag, land, bigf0@, sy, sx) is None,
            forall|x: int, y: int|
                0 <= x < storage.width && 0 <= y < storage.height ==> (if x < side && y < side
                    && at_or_after(y, x, sy, sx) {
                    minimap_texel(flag, land.cell(y, x), bigf0@) == Ok::<u8, LookupError>(
                        #[trigger] storage.pixel(x, y),
                    )
                } else {
                    storage.pixel(x, y) == old(storage).pixel(x, y)
                }),
        decreases
                land_iter.landscape.spec_width() - land_iter.pos_height,
                land_iter.landscape.spec_width() - land_iter.pos_width,
    {
        let ghost at_y = land_iter.pos_height as int;
        let ghost at_x = land_iter.pos_width as int;
        let pos_point = match land_iter.next() {
            Some(p) => p,
            None => {
                break ;
            },
        };
        let i = pos_point.y;
        let j = pos_point.x;
        let val = match minimap_pixel(flag, pos_point.pos, bigf0) {
            Ok(v) => v,
            Err(e) => {
                proof {
                    assert(minimap_error(flag, land, bigf0@, at_y, at_x) == Some(
                        spec_located(e, j, i),
                    ));
                }
                return Err(located(e, j, i));
            },
        };
        let ghost before = *storage;
        proof {
            lemma_minimap_step(flag, land, bigf0@, at_y, at_x);
            lemma_pixel_place(
                storage.width as int,
                storage.height as int,
                at_x,
                at_y,
                at_x,
                at_y,
            );
        }
        storage.set_pixel(j, i, val);
        proof {
            assert forall|x: int, y: int|
                0 <= x < storage.width && 0 <= y < storage.height implies (if x < side && y < side
                && at_or_after(y, x, sy, sx) && !at_or_after(
                y,
                x,
                land_iter.pos_height as int,
                land_iter.pos_width as int,
            ) {
                minimap_texel(flag, land.cell(y, x), bigf0@) == Ok::<u8, LookupError>(
                    #[trigger] storage.pixel(x, y),
                )
            } else {
                storage.pixel(x, y) == old(storage).pixel(x, y)
            }) by {
                lemma_pixel_place(storage.width as int, storage.height as int, x, y, at_x, at_y);
                if x == at_x && y == at_y {
                } else {
                    assert(storage.pixel(x, y) == before.pixel(x, y));
                }
            }
        }
    }
    Ok(())
}

/// `r` is what making the minimap of `land` comes to: the image of all the
/// texels, or the first lookup that fails.
pub open spec fn minimap_is(
    flag: bool,
    land: &LandscapeFull,
    bigf0: Seq<u8>,
    r: Result<Image, TextureError>,
) -> bool {
    match r {
        Err(e) => minimap_error(flag, land, bigf0, 0, 0) == Some(e),
        Ok(image) => {
            &&& minimap_error(flag, land, bigf0, 0, 0) is None
            &&& image.width == land.spec_width()
            &&& image.height == land.spec_width()
            &&& image.wf()
            &&& forall|x: int, y: int|
                0 <= x < land.spec_width() && 0 <= y < land.spec_width() ==> minimap_texel(
                    flag,
                    land.cell(y, x),
                    bigf0,
                ) == Ok::<u8, LookupError>(#[trigger] image.pixel(x, y))
        },
    }
}

/// Makes the minimap of a landscape: one pixel for each cell. `width` is the
/// side of the landscape.
pub fn texture_minimap(width: usize, flag: bool, land: &LandscapeFull, bigf0: &[u8]) -> (r: Result<
    Image,
    TextureError,
>)
    requires
        land.wf(),
    ensures
        width != land.spec_width() ==> r == Err::<Image, TextureError>(
            TextureError::InputShape {
                table: TableName::LandGrid,
                expected: land.spec_width(),
                actual: width,
            },
        ),
        width == land.spec_width() ==> minimap_is(flag, land, bigf0@, r),
{
    if width != land.land_size() {
        return Err(
            TextureError::InputShape {
                table: TableName::LandGrid,
                expected: land.land_size(),
                actual: width,
            },
        );
    }
    proof {
        land.lemma_grid_fits();
    }
    let mut image = Image::allocate(width, width);
    let mut land_iter = land.iter();
    match texture_minimap_storage(flag, &mut land_iter, bigf0, &mut image) {
        Err(e) => Err(e),
        Ok(()) => Ok(image),
    }
}


/// The minimap is determined by the landscape, the table and the flag:
/// whatever meets its description is the same image, or the same failure.
pub proof fn law_minimap_determined(
    flag: bool,
    land: &LandscapeFull,
    bigf0: Seq<u8>,
    first: Result<Image, TextureError>,
    second: Result<Image, TextureError>,
)
    requires
        minimap_is(flag, land, bigf0, first),
        minimap_is(flag, land, bigf0, second),
    ensures
        same_texture(first, second),
{
    if let (Ok(a), Ok(b)) = (first, second) {
        assert forall|x: int, y: int| 0 <= x < a.width && 0 <= y < a.height implies #[trigger] a.pixel(
            x,
            y,
        ) == b.pixel(x, y) by {
            let t = minimap_texel(flag, land.cell(y, x), bigf0);
            assert(t == Ok::<u8, LookupError>(a.pixel(x, y)));
            assert(t == Ok::<u8, LookupError>(b.pixel(x, y)));
        }
        lemma_image_by_pixels(&a, &b);
    }
}

} // verus!
