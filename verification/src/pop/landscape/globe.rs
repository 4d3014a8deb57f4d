//! The globe texture: the land texture's formula at 8 by 8 texels per cell.

use vstd::prelude::*;
use crate::pop::error::{lookup, spec_lookup, LookupError, TableName, TextureError};
use crate::pop::landscape::common::{DispProvider, LandPosQuad, LandscapeFull};
use crate::pop::landscape::land::{
    cell_error,
    in_walked_cell,
    cell_texel,
    cell_tile,
    land_texel,
    landscape_error,
    lemma_landscape_without_error,
    lemma_texel_in_bounds,
    lemma_tile_without_error,
    render_landscape,
    source_fits,
    tiled_texture_is,
};
use crate::pop::level::GlobeTextureParams;
use crate::pop::types::{Image, ImageSourceComposed, TiledComposer};

verus! {

/// The side of a tile of the globe texture.
pub const GLOBE_TILE: u16 = 8;

/// The sampler of the displacement field for tiles of 8 by 8 texels: of the
/// block of the field that the quad's column `x` and row `y` choose, it reads
/// every fourth entry of every fourth row.
pub struct DispProvider8<'a> {
    pub x: usize,
    pub y: usize,
    pub disp: &'a Vec<i8>,
}

impl<'a> DispProvider8<'a> {
    /// The sampler over the field `disp` before it is moved to a tile.
    pub open spec fn spec_start(disp: &'a Vec<i8>) -> DispProvider8<'a> {
        DispProvider8 { x: 0, y: 0, disp }
    }

    pub fn new(disp: &'a Vec<i8>) -> (p: Self)
        ensures
            p == Self::spec_start(disp),
    {
        Self { x: 0, y: 0, disp }
    }

    /// Where the sample for row `i`, column `j` of the tile lies in the
    /// field.
    pub open spec fn sample_index(&self, i: usize, j: usize) -> usize {
        ((self.y & 0x7) << 13) | ((self.x & 0x7) << 5) | ((i * 4) as usize) | (j << 10)
    }
}

impl<'a> DispProvider for DispProvider8<'a> {
    open spec fn spec_val(&self, i: usize, j: usize) -> Result<i8, LookupError> {
        spec_lookup(self.disp@, TableName::Disp0, self.sample_index(i, j) as int)
    }

    /// The displacement itself.
    open spec fn spec_val_adjacent(&self, i: usize, j: usize) -> Result<i16, LookupError> {
        match self.spec_val(i, j) {
            Err(e) => Err(e),
            Ok(here) => Ok(here as i16),
        }
    }

    open spec fn spec_update(&self, pos: &LandPosQuad) -> Self {
        DispProvider8 { x: pos.x as usize, y: pos.y as usize, disp: self.disp }
    }

    proof fn lemma_update_forgets(&self, first: &LandPosQuad, then: &LandPosQuad) {
    }

    fn val(&self, i: usize, j: usize) -> (r: Result<i8, LookupError>) {
        let x = self.x;
        let y = self.y;
        let disp_index: usize = ((y & 0x7) << 13) | ((x & 0x7) << 5) | (i * 4) | (j << 10);
        assert(disp_index < 0x8000_0000) by (bit_vector)
            requires
                disp_index == ((y & 0x7) << 13) | ((x & 0x7) << 5) | ((i * 4) as usize) | (j
                    << 10),
                i <= 0xffff,
                j <= 0xffff,
        ;
        lookup(self.disp.as_slice(), TableName::Disp0, disp_index as i64)
    }

    fn val_adjacent(&self, i: usize, j: usize) -> (r: Result<i16, LookupError>) {
        match self.val(i, j) {
            Ok(v) => Ok(v as i16),
            Err(e) => Err(e),
        }
    }

    fn update(&mut self, _disp0: &[i8], pos: &LandPosQuad) {
        self.x = pos.x as usize;
        self.y = pos.y as usize;
    }
}

/// Renders the globe texture into the tiles of `tile_source`, which must
/// hand out a tile of 8 by 8 pixels for every cell.
pub fn texture_globe_provider(
    land: &LandscapeFull,
    params: &GlobeTextureParams,
    tile_source: &mut ImageSourceComposed<TiledComposer, Image>,
) -> (r: Result<(), TextureError>)
    requires
        land.wf(),
        source_fits(old(tile_source), land, GLOBE_TILE),
    ensures
        final(tile_source).composer == old(tile_source).composer,
        final(tile_source).tile.image.width == old(tile_source).tile.image.width,
        final(tile_source).tile.image.height == old(tile_source).tile.image.height,
        final(tile_source).tile.image.wf(),
        r is Ok ==> forall|x: int, y: int|
            0 <= x < old(tile_source).tile.image.width && 0 <= y < old(
                tile_source,
            ).tile.image.height && !in_walked_cell(
                land.spec_width() as int,
                GLOBE_TILE as int,
                0,
                0,
                land.spec_width() as int,
                0,
                x,
                y,
            ) ==> #[trigger] final(tile_source).tile.image.pixel(x, y) == old(
                tile_source,
            ).tile.image.pixel(x, y),
        r is Ok <==> landscape_error(
            params,
            land,
            &DispProvider8::spec_start(&params.disp0),
            GLOBE_TILE,
            0,
            0,
        ) is None,
        r matches Err(e) ==> landscape_error(
            params,
            land,
            &DispProvider8::spec_start(&params.disp0),
            GLOBE_TILE,
            0,
            0,
        ) == Some(e),
        r is Ok ==> forall|cy: int, cx: int, i: int, j: int|
            0 <= cy < land.spec_width() && 0 <= cx < land.spec_width() && 0 <= i < GLOBE_TILE && 0
                <= j < GLOBE_TILE ==> (#[trigger] cell_texel(
                params,
                land,
                &DispProvider8::spec_start(&params.disp0),
                GLOBE_TILE,
                cy,
                cx,
                i,
                j,
            )) == Ok::<u8, LookupError>(
                final(tile_source).tile.image.pixel(cx * GLOBE_TILE + j, cy * GLOBE_TILE + i),
            ),
{
    let mut disp = DispProvider8::new(&params.disp0);
    let mut land_iter = land.iter_quad();
    render_landscape(&mut land_iter, params, &mut disp, tile_source)
}

/// Makes the globe texture of a landscape: 8 by 8 texels for each cell, the
/// tile of the cell at row `cy`, column `cx` at column `cx * 8`, row `cy * 8`
/// of the image. `width` is the side of the landscape.
pub fn texture_globe(width: usize, land: &LandscapeFull, params: &GlobeTextureParams) -> (r:
    Result<Image, TextureError>)
    requires
        land.wf(),
        (width * GLOBE_TILE) * (width * GLOBE_TILE) <= usize::MAX,
    ensures
        width != land.spec_width() ==> r == Err::<Image, TextureError>(
            TextureError::InputShape {
                table: TableName::LandGrid,
                expected: land.spec_width(),
                actual: width,
            },
        ),
        width == land.spec_width() ==> tiled_texture_is(
            land,
            params,
            &DispProvider8::spec_start(&params.disp0),
            GLOBE_TILE,
            r,
        ),
        width == land.spec_width() && params.wf() ==> r is Ok,
{
    proof {
        if params.wf() {
            law_globe_tables_suffice(land, params);
        }
    }
    if width != land.land_size() {
        return Err(
            TextureError::InputShape {
                table: TableName::LandGrid,
                expected: land.land_size(),
                actual: width,
            },
        );
    }
    proof {
        assert(width * GLOBE_TILE <= usize::MAX) by (nonlinear_arith)
            requires
                (width * GLOBE_TILE) * (width * GLOBE_TILE) <= usize::MAX,
        ;
    }
    let mut tile_source = {
        let n: usize = 8;
        let image = Image::allocate(width * n, width * n);
        let composer = TiledComposer::new(width * n, width * n, n, n);
        ImageSourceComposed::new(composer, image)
    };
    match texture_globe_provider(land, params, &mut tile_source) {
        Err(e) => Err(e),
        Ok(()) => Ok(tile_source.get_image()),
    }
}


/// Inside a tile of 8 by 8 texels the sampler stays inside a displacement
/// field of the documented size, wherever it is moved to.
pub proof fn lemma_block_in_field(disp: &DispProvider8, i: usize, j: usize)
    requires
        disp.disp.len() == crate::pop::level::DISP_LEN,
        i < 8,
        j < 8,
    ensures
        disp.sample_index(i, j) < crate::pop::level::DISP_LEN,
        disp.spec_val(i, j) is Ok,
        disp.spec_val_adjacent(i, j) is Ok,
{
    let x = disp.x;
    let y = disp.y;
    let at = disp.sample_index(i, j);
    assert(at < 0x10000) by (bit_vector)
        requires
            at == ((y & 0x7) << 13) | ((x & 0x7) << 5) | ((i * 4) as usize) | (j << 10),
            i < 8,
            j < 8,
    ;
}

/// With tables of the documented sizes, no lookup of the globe texture
/// fails, whatever the landscape.
pub proof fn law_globe_tables_suffice(land: &LandscapeFull, params: &GlobeTextureParams)
    requires
        land.wf(),
        params.wf(),
    ensures
        landscape_error(
            params,
            land,
            &DispProvider8::spec_start(&params.disp0),
            GLOBE_TILE,
            0,
            0,
        ) is None,
{
    let start = DispProvider8::spec_start(&params.disp0);
    assert forall|r: int, c: int|
        0 <= r < land.spec_width() && 0 <= c < land.spec_width() implies (#[trigger] cell_error(
        params,
        land,
        &start,
        GLOBE_TILE,
        r,
        c,
    )) is None by {
        let tile = cell_tile(land, GLOBE_TILE, r, c);
        let disp = start.spec_update(&land.quad(r, c));
        assert forall|i: int, j: int| 0 <= i < tile.width && 0 <= j < tile.width implies (
        #[trigger] land_texel(params, &tile, &disp, i as usize, j as usize)) is Ok by {
            lemma_block_in_field(&disp, i as usize, j as usize);
            lemma_texel_in_bounds(params, &tile, &disp, i as usize, j as usize);
        }
        lemma_tile_without_error(params, &tile, &disp, 0, 0);
    }
    lemma_landscape_without_error(params, land, &start, GLOBE_TILE, 0, 0);
}

} // verus!
