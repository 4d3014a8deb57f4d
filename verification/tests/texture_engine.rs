use faithful::pop::error::{LookupError, TableName, TextureError};
use faithful::pop::landscape::common::{
    get_height, DispProvider, LandInc, LandPos, LandPosQuad, LandTileQuad, LandscapeFull,
};
use faithful::pop::landscape::globe::{texture_globe, DispProvider8};
use faithful::pop::landscape::land::{texel, texture_land, DispProvider32};
use faithful::pop::landscape::minimap::{minimap_pixel, texture_minimap};
use faithful::pop::landscape::water::{texture_water, water_pixel};
use faithful::pop::level::GlobeTextureParams;

struct Lcg(u64);

impl Lcg {
    fn next(&mut self) -> u32 {
        self.0 = self.0.wrapping_mul(6364136223846793005).wrapping_add(1442695040888963407);
        (self.0 >> 33) as u32
    }
}

fn cell(height: u16, c_1: u8, brightness: u8, land_adj: bool) -> LandPos {
    LandPos {
        flags: 0,
        height,
        b_2: 0,
        c: 0,
        c_1,
        c_2: 0,
        c_3: 0,
        brightness,
        ph: 0,
        ph_2: 0,
        land_adj,
    }
}

fn tables(seed: u64) -> GlobeTextureParams {
    let mut rng = Lcg(seed);
    let mut disp0 = Vec::with_capacity(65536);
    for _ in 0..65536 {
        disp0.push((rng.next() & 0xff) as u8 as i8);
    }
    let mut bigf0 = Vec::with_capacity(1152 * 256);
    for _ in 0..1152 * 256 {
        bigf0.push((rng.next() & 0xff) as u8);
    }
    let mut cliff0 = Vec::with_capacity(256 * 128);
    for _ in 0..256 * 128 {
        cliff0.push((rng.next() & 0xff) as u8);
    }
    GlobeTextureParams {
        disp0,
        cliff0,
        bigf0,
        fade0: Vec::new(),
        static_landscape_array: GlobeTextureParams::make_static_array(),
        palette: Vec::new(),
    }
}

fn grid(side: usize, seed: u64) -> Vec<LandPos> {
    let mut rng = Lcg(seed);
    let mut cells = Vec::new();
    for _ in 0..side * side {
        let r = rng.next();
        let height = (r % 1152) as u16;
        let c_1 = if r & 0x10000 != 0 { ((r >> 20) & 0xff) as u8 } else { 0 };
        let brightness = ((r >> 8) & 0xff) as u8;
        let land_adj = r & 0x20000 != 0;
        cells.push(cell(height, c_1, brightness, land_adj));
    }
    cells
}

fn effective(pos: &LandPos) -> f32 {
    let h = pos.height as u32;
    let v = if pos.c_1 != 0 {
        (h + 0x96).min(0x3fe)
    } else if pos.height > 0 || pos.land_adj {
        (h + 0x96).min(0x400)
    } else {
        (h + 0x4b).min(0x400)
    };
    v as f32
}

fn inc_line(p1: f32, p2: f32, p3: f32, p4: f32, n: f32, i: usize, j: usize) -> f32 {
    let inc_vert = (p3 - p1) / n;
    let inc_start = (p2 - p1) / n;
    let inc_horz = ((p4 - p3) / n - inc_start) / n;
    let start = p1 + inc_vert * (i as f32);
    let line = inc_start + inc_horz * (i as f32);
    start + line * (j as f32)
}

fn val32(disp: &[i8], x0: usize, y0: usize, i: usize, j: usize) -> i8 {
    let y = (y0 + i) & 0xff;
    let x = ((x0 + j) & 0xff) << 8;
    disp[x + y]
}

fn val8(disp: &[i8], qx: usize, qy: usize, i: usize, j: usize) -> i8 {
    disp[((qy & 7) << 13) | ((qx & 7) << 5) | (i * 4) | (j << 10)]
}

fn by_floats(
    params: &GlobeTextureParams,
    corners: [&LandPos; 4],
    n: usize,
    i: usize,
    j: usize,
    disp_raw: i8,
    adjacent: f32,
) -> u8 {
    let nf = n as f32;
    let height = inc_line(
        effective(corners[0]),
        effective(corners[1]),
        effective(corners[2]),
        effective(corners[3]),
        nf,
        i,
        j,
    ) as i32;
    let brightness = inc_line(
        corners[0].brightness as f32,
        corners[1].brightness as f32,
        corners[2].brightness as f32,
        corners[3].brightness as f32,
        nf,
        i,
        j,
    );
    let b_dist = ((adjacent / 4.0 + brightness).round() as i32).clamp(0, 255);
    let c1 = inc_line(
        corners[0].c_1 as f32,
        corners[1].c_1 as f32,
        corners[2].c_1 as f32,
        corners[3].c_1 as f32,
        nf,
        i,
        j,
    ) / 4.0;
    let edge = c1.max(0.0) as usize;
    let product = params.static_landscape_array[height as usize] as i32 * disp_raw as i32;
    let static_component = (((product as u32) & 0xfffffc03) as i32) >> 2;
    let height_component = (height * 256) & 0x7fffff00;
    let big_index = (static_component + height_component + b_dist) as usize;
    let big = params.bigf0[big_index] as usize;
    params.cliff0[big + edge * 0x80]
}

fn corners_of(cells: &[LandPos], side: usize, cy: usize, cx: usize) -> [&LandPos; 4] {
    let ny = (cy + 1) % side;
    let nx = (cx + 1) % side;
    [&cells[cy * side + cx], &cells[cy * side + nx], &cells[ny * side + cx], &cells[ny * side + nx]]
}

fn land_by_floats(
    params: &GlobeTextureParams,
    cells: &[LandPos],
    side: usize,
    cy: usize,
    cx: usize,
    i: usize,
    j: usize,
) -> u8 {
    let x0 = (cx & 7) * 32;
    let y0 = ((cy + 1) & 7) * 32;
    let here = val32(&params.disp0, x0, y0, i, j);
    let id = if j == 31 { 0 } else { 1 };
    let there = val32(&params.disp0, x0, y0, i + id, j + 1);
    let adjacent = (there as i32 - here as i32) as f32;
    by_floats(params, corners_of(cells, side, cy, cx), 32, i, j, here, adjacent)
}

fn globe_by_floats(
    params: &GlobeTextureParams,
    cells: &[LandPos],
    side: usize,
    cy: usize,
    cx: usize,
    i: usize,
    j: usize,
) -> u8 {
    let here = val8(&params.disp0, cx & 7, (cy + 1) & 7, i, j);
    by_floats(params, corners_of(cells, side, cy, cx), 8, i, j, here, here as f32)
}

#[test]
fn effective_height_lifts_and_clamps() {
    assert_eq!(get_height(&cell(0, 0, 0x80, false)), 0x4b);
    assert_eq!(get_height(&cell(0, 0, 0x80, true)), 0x96);
    assert_eq!(get_height(&cell(1, 0, 0x80, false)), 0x97);
    assert_eq!(get_height(&cell(100, 0, 0x80, false)), 250);
    assert_eq!(get_height(&cell(873, 0, 0x80, false)), 1023);
    assert_eq!(get_height(&cell(874, 0, 0x80, false)), 0x400);
    assert_eq!(get_height(&cell(875, 0, 0x80, false)), 0x400);
    assert_eq!(get_height(&cell(1151, 0, 0x80, false)), 0x400);
    assert_eq!(get_height(&cell(0, 1, 0x80, false)), 0x96);
    assert_eq!(get_height(&cell(871, 7, 0x80, false)), 1021);
    assert_eq!(get_height(&cell(872, 7, 0x80, false)), 0x3fe);
    assert_eq!(get_height(&cell(1151, 255, 0x80, true)), 0x3fe);
    assert_eq!(get_height(&cell(65535, 0, 0x80, false)), 0x400);
    assert_eq!(get_height(&cell(65535, 1, 0x80, false)), 0x3fe);
}

#[test]
fn effective_height_never_falls_as_height_grows() {
    for c_1 in [0u8, 1, 255] {
        for land_adj in [false, true] {
            let mut last = 0u16;
            for height in 0..=1200u16 {
                let h = get_height(&cell(height, c_1, 0x80, land_adj));
                assert!(h >= last);
                assert!(h <= 0x400);
                last = h;
            }
        }
    }
}

#[test]
fn interpolation_is_exact_at_the_corners() {
    for n in [1u16, 2, 8, 32, 100] {
        let inc = LandInc::mk_land_inc(10, 250, 1024, 75, n);
        let scale = inc.scale();
        assert_eq!(scale, (n as i64) * (n as i64));
        assert_eq!(inc.inc_line(0, 0), 10 * scale);
        assert_eq!(inc.inc_line(n as usize, 0), 1024 * scale);
        assert_eq!(inc.inc_line(0, n as usize), 250 * scale);
        assert_eq!(inc.inc_line(n as usize, n as usize), 75 * scale);
    }
}

#[test]
fn interpolation_follows_the_two_level_formula() {
    let inc = LandInc::mk_land_inc8(10, 50, 200, 0, 8);
    // start = 10 + (200 - 10) * 3 / 8, line = (50 - 10) / 8 + ((0 - 200) / 8 - (50 - 10) / 8) * 3 / 8,
    // value = start + line * 5, all times 64.
    let (start, line) = inc.inc(3);
    assert_eq!(start, 10 * 8 + 190 * 3);
    assert_eq!(line, 40 * 8 + (-200 - 40) * 3);
    assert_eq!(inc.inc_line(3, 5), (10 * 8 + 190 * 3) * 8 + (40 * 8 - 240 * 3) * 5);
    assert_eq!(inc.inc_line(3, 5), 3200);
    for i in 0..8 {
        for j in 0..8 {
            let exact = inc.inc_line(i, j) as f32 / 64.0;
            assert_eq!(exact, inc_line(10.0, 50.0, 200.0, 0.0, 8.0, i, j));
        }
    }
}

#[test]
fn tile_interpolates_height_brightness_and_edge() {
    let p1 = cell(0, 0, 0x80, false);
    let p2 = cell(10, 4, 0, false);
    let p3 = cell(900, 0, 255, true);
    let p4 = cell(0, 0, 7, true);
    let quad = LandPosQuad { x: 3, y: 5, p1: &p1, p2: &p2, p3: &p3, p4: &p4 };
    let tile = LandTileQuad::new(32, &quad);
    assert_eq!(tile.coord_x(), 3);
    assert_eq!(tile.coord_y(), 5);
    assert_eq!(tile.tile_width(), 32);
    assert_eq!(tile.tile_height(), 32);
    assert_eq!(tile.scale(), 1024);
    assert_eq!(tile.height(0, 0), 0x4b * 1024);
    assert_eq!(tile.height(0, 32), 0x3fe.min(10 + 0x96) * 1024);
    assert_eq!(tile.height(32, 0), 0x400 * 1024);
    assert_eq!(tile.height(32, 32), 0x96 * 1024);
    assert_eq!(tile.brightness(0, 0), 0x80 * 1024);
    assert_eq!(tile.brightness(32, 32), 7 * 1024);
    assert_eq!(tile.c1(0, 32), 4 * 1024);
    assert_eq!(tile.c1(16, 16), 1024);
}

#[test]
fn sampler_32_goes_round_the_field() {
    let mut disp0 = vec![0i8; 65536];
    for (k, d) in disp0.iter_mut().enumerate() {
        *d = ((k * 7 + k / 256) & 0xff) as u8 as i8;
    }
    let p = cell(0, 0, 0, false);
    let quad = LandPosQuad { x: 7, y: 7, p1: &p, p2: &p, p3: &p, p4: &p };
    let mut sampler = DispProvider32::new(&disp0);
    sampler.update(&disp0, &quad);
    assert_eq!(sampler.x, 224);
    assert_eq!(sampler.y, 224);
    for i in 0..32 {
        for j in 0..32 {
            assert_eq!(sampler.val(i, j), Ok(val32(&disp0, 224, 224, i, j)));
        }
    }
    // Row 31 and column 31 of the last block read their neighbours from
    // row 0 and column 0 of the field.
    let here = disp0[(255 << 8) + 255];
    assert_eq!(sampler.val(31, 31), Ok(here));
    assert_eq!(sampler.val_adjacent(31, 31), Ok(disp0[255] as i16 - here as i16));
    let left = disp0[(254 << 8) + 255];
    assert_eq!(sampler.val_adjacent(31, 30), Ok(disp0[(255 << 8)] as i16 - left as i16));
}

#[test]
fn sampler_32_does_not_step_down_in_the_last_column() {
    let mut disp0 = vec![0i8; 65536];
    for (k, d) in disp0.iter_mut().enumerate() {
        *d = ((k * 13 + k / 256 * 5) & 0x7f) as i8;
    }
    let p = cell(0, 0, 0, false);
    let quad = LandPosQuad { x: 1, y: 2, p1: &p, p2: &p, p3: &p, p4: &p };
    let mut sampler = DispProvider32::new(&disp0);
    sampler.update(&disp0, &quad);
    for i in 0..32 {
        let here = val32(&disp0, 32, 64, i, 31) as i16;
        let same_row = val32(&disp0, 32, 64, i, 32) as i16;
        assert_eq!(sampler.val_adjacent(i, 31), Ok(same_row - here));
        let before = val32(&disp0, 32, 64, i, 30) as i16;
        let next_row = val32(&disp0, 32, 64, i + 1, 31) as i16;
        assert_eq!(sampler.val_adjacent(i, 30), Ok(next_row - before));
    }
}

#[test]
fn sampler_8_reads_every_fourth_entry_of_its_block() {
    let mut disp0 = vec![0i8; 65536];
    for (k, d) in disp0.iter_mut().enumerate() {
        *d = ((k * 31 + k / 256) & 0xff) as u8 as i8;
    }
    let p = cell(0, 0, 0, false);
    let quad = LandPosQuad { x: 3, y: 6, p1: &p, p2: &p, p3: &p, p4: &p };
    let mut sampler = DispProvider8::new(&disp0);
    sampler.update(&disp0, &quad);
    for i in 0..8 {
        for j in 0..8 {
            let at = (6 << 13) + (3 << 5) + i * 4 + (j << 10);
            assert_eq!(sampler.val(i, j), Ok(disp0[at]));
            assert_eq!(sampler.val_adjacent(i, j), Ok(disp0[at] as i16));
        }
    }
}

#[test]
fn sampler_reports_a_short_field() {
    let disp0 = vec![1i8; 1000];
    let p = cell(0, 0, 0, false);
    let quad = LandPosQuad { x: 0, y: 0, p1: &p, p2: &p, p3: &p, p4: &p };
    let mut sampler = DispProvider32::new(&disp0);
    sampler.update(&disp0, &quad);
    assert_eq!(sampler.val(0, 0), Ok(1));
    assert_eq!(sampler.val(0, 4), Err(LookupError { table: TableName::Disp0, index: 1024 }));
    assert_eq!(
        sampler.val_adjacent(1, 3),
        Err(LookupError { table: TableName::Disp0, index: 1026 })
    );
    let mut small = DispProvider8::new(&disp0);
    small.update(&disp0, &quad);
    assert_eq!(small.val(7, 0), Ok(1));
    assert_eq!(small.val(0, 1), Err(LookupError { table: TableName::Disp0, index: 1024 }));
}

#[test]
fn texel_has_the_value_of_the_formula() {
    // All corners alike: height 100 + 0x96 = 250, brightness 100, no cliff.
    let mut params = tables(1);
    let p = cell(100, 0, 100, false);
    let quad = LandPosQuad { x: 0, y: 0, p1: &p, p2: &p, p3: &p, p4: &p };
    let tile = LandTileQuad::new(32, &quad);
    for d in params.disp0.iter_mut() {
        *d = 0;
    }
    params.disp0[0] = -3;
    params.disp0[257] = 6;
    let sampler = DispProvider32::new(&params.disp0);
    // multiplier 0xd3d - (1152 - 250) * 3 = 683; 683 * -3 = -2049 is -3 in
    // whole 1024ths, rounded down, so the displacement gives -3 * 256.
    // The signal is 6 - (-3) = 9, a quarter of it 2.25, with brightness 100
    // that is 102.25 and rounds to 102.
    let big_index = 250 * 256 - 3 * 256 + 102;
    params.bigf0[big_index] = 77;
    params.cliff0[77] = 201;
    assert_eq!(texel(&params, &tile, &sampler, 0, 0), Ok(201));
    params.cliff0[77] = 5;
    assert_eq!(texel(&params, &tile, &sampler, 0, 0), Ok(5));
}

#[test]
fn texel_rounds_the_brightness_distance_to_the_nearest() {
    let mut params = tables(2);
    let p = cell(362, 0, 10, false);
    let quad = LandPosQuad { x: 0, y: 0, p1: &p, p2: &p, p3: &p, p4: &p };
    let tile = LandTileQuad::new(32, &quad);
    for d in params.disp0.iter_mut() {
        *d = 0;
    }
    for b in params.bigf0.iter_mut() {
        *b = 0;
    }
    // Signal 3: 0.75 + 10 rounds to 11. Signal 2: 0.5 + 10 rounds to 11.
    // Signal 1: 0.25 + 10 rounds to 10. Signal -2: 9.5 rounds to 10.
    // Signal -3: 9.25 rounds to 9.
    let height = 362 + 0x96;
    params.bigf0[height * 256 + 9] = 9;
    params.bigf0[height * 256 + 10] = 10;
    params.bigf0[height * 256 + 11] = 11;
    for k in 0..128usize {
        params.cliff0[k] = k as u8;
    }
    for (signal, expected) in [(3i8, 11u8), (2, 11), (1, 10), (0, 10), (-2, 10), (-3, 9)] {
        params.disp0[257] = signal;
        let sampler = DispProvider32::new(&params.disp0);
        assert_eq!(texel(&params, &tile, &sampler, 0, 0), Ok(expected));
    }
}

#[test]
fn texel_clamps_the_brightness_distance() {
    let mut params = tables(3);
    for d in params.disp0.iter_mut() {
        *d = 0;
    }
    let dark = cell(500, 0, 0, false);
    let quad = LandPosQuad { x: 0, y: 0, p1: &dark, p2: &dark, p3: &dark, p4: &dark };
    let tile = LandTileQuad::new(32, &quad);
    params.disp0[0] = 127;
    params.disp0[257] = -128;
    let height = 500 + 0x96;
    // 1024 * 127 / 1024 = 127 rows up; the signal -255 would give a
    // negative distance, which is 0.
    let row = (height + 127) * 256;
    for k in 0..256 {
        params.bigf0[row + k] = 100;
    }
    params.bigf0[row] = 1;
    params.cliff0[1] = 200;
    params.cliff0[100] = 0;
    let sampler = DispProvider32::new(&params.disp0);
    assert_eq!(texel(&params, &tile, &sampler, 0, 0), Ok(200));
    let bright = cell(500, 0, 255, false);
    let quad = LandPosQuad { x: 0, y: 0, p1: &bright, p2: &bright, p3: &bright, p4: &bright };
    let tile = LandTileQuad::new(32, &quad);
    params.disp0[0] = -128;
    params.disp0[257] = 127;
    let row = (height - 128) * 256;
    for k in 0..256 {
        params.bigf0[row + k] = 100;
    }
    params.bigf0[row + 255] = 2;
    params.cliff0[2] = 222;
    let sampler = DispProvider32::new(&params.disp0);
    assert_eq!(texel(&params, &tile, &sampler, 0, 0), Ok(222));
}

#[test]
fn texel_takes_the_edge_from_a_quarter_of_the_cliff_marker() {
    let mut params = tables(4);
    for d in params.disp0.iter_mut() {
        *d = 0;
    }
    for b in params.bigf0.iter_mut() {
        *b = 3;
    }
    for (k, c) in params.cliff0.iter_mut().enumerate() {
        *c = (k / 0x80) as u8;
    }
    for (marker, edge) in [(1u8, 0u8), (3, 0), (4, 1), (7, 1), (8, 2), (255, 63)] {
        let p = cell(0, marker, 0x80, false);
        let quad = LandPosQuad { x: 0, y: 0, p1: &p, p2: &p, p3: &p, p4: &p };
        let tile = LandTileQuad::new(8, &quad);
        let sampler = DispProvider8::new(&params.disp0);
        assert_eq!(texel(&params, &tile, &sampler, 2, 5), Ok(edge));
    }
}

#[test]
fn texel_reports_the_table_and_the_index_that_fail() {
    let mut params = tables(5);
    for d in params.disp0.iter_mut() {
        *d = 0;
    }
    let p = cell(1000, 0, 0x80, false);
    let quad = LandPosQuad { x: 0, y: 0, p1: &p, p2: &p, p3: &p, p4: &p };
    let tile = LandTileQuad::new(32, &quad);
    let big_index = 0x400 * 256 + 0x80;
    params.bigf0.truncate(big_index);
    {
        let sampler = DispProvider32::new(&params.disp0);
        assert_eq!(
            texel(&params, &tile, &sampler, 0, 0),
            Err(LookupError { table: TableName::Bigf0, index: big_index as i64 })
        );
    }
    params.bigf0.push(255);
    params.cliff0.truncate(255);
    {
        let sampler = DispProvider32::new(&params.disp0);
        assert_eq!(
            texel(&params, &tile, &sampler, 0, 0),
            Err(LookupError { table: TableName::Cliff0, index: 255 })
        );
    }
    params.static_landscape_array.truncate(0x400);
    {
        let sampler = DispProvider32::new(&params.disp0);
        assert_eq!(
            texel(&params, &tile, &sampler, 0, 0),
            Err(LookupError { table: TableName::StaticLandscapeArray, index: 0x400 })
        );
    }
    params.disp0.truncate(257);
    {
        let sampler = DispProvider32::new(&params.disp0);
        assert_eq!(
            texel(&params, &tile, &sampler, 0, 0),
            Err(LookupError { table: TableName::Disp0, index: 257 })
        );
    }
}

#[test]
fn texel_index_may_fall_below_the_table() {
    let mut params = tables(6);
    for d in params.disp0.iter_mut() {
        *d = -128;
    }
    for m in params.static_landscape_array.iter_mut() {
        *m = 0xffff;
    }
    let p = cell(0, 0, 0, false);
    let quad = LandPosQuad { x: 0, y: 0, p1: &p, p2: &p, p3: &p, p4: &p };
    let tile = LandTileQuad::new(32, &quad);
    let sampler = DispProvider32::new(&params.disp0);
    // 0xffff * -128 = -8388480, in whole 1024ths rounded down -8192.
    let index = -8192 * 256 + 0x4b * 256;
    assert_eq!(
        texel(&params, &tile, &sampler, 0, 0),
        Err(LookupError { table: TableName::Bigf0, index })
    );
}

#[test]
fn land_texture_agrees_with_the_formula_in_floats() {
    let side = 3;
    let params = tables(11);
    let cells = grid(side, 12);
    let land = LandscapeFull::new(side, cells.clone());
    let image = texture_land(side, &land, &params).unwrap();
    assert_eq!(image.width, side * 32);
    assert_eq!(image.height, side * 32);
    assert_eq!(image.data.len(), side * 32 * side * 32);
    for cy in 0..side {
        for cx in 0..side {
            for i in 0..32 {
                for j in 0..32 {
                    let pixel = image.data[(cy * 32 + i) * image.width + cx * 32 + j];
                    assert_eq!(pixel, land_by_floats(&params, &cells, side, cy, cx, i, j));
                }
            }
        }
    }
}

#[test]
fn globe_texture_agrees_with_the_formula_in_floats() {
    let side = 9;
    let params = tables(21);
    let cells = grid(side, 22);
    let land = LandscapeFull::new(side, cells.clone());
    let image = texture_globe(side, &land, &params).unwrap();
    assert_eq!(image.width, side * 8);
    assert_eq!(image.height, side * 8);
    for cy in 0..side {
        for cx in 0..side {
            for i in 0..8 {
                for j in 0..8 {
                    let pixel = image.data[(cy * 8 + i) * image.width + cx * 8 + j];
                    assert_eq!(pixel, globe_by_floats(&params, &cells, side, cy, cx, i, j));
                }
            }
        }
    }
}

#[test]
fn textures_are_the_same_when_made_twice() {
    let side = 2;
    let params = tables(31);
    let land = LandscapeFull::new(side, grid(side, 32));
    let first = texture_land(side, &land, &params).unwrap();
    let second = texture_land(side, &land, &params).unwrap();
    assert_eq!(first.data, second.data);
    let first = texture_globe(side, &land, &params).unwrap();
    let second = texture_globe(side, &land, &params).unwrap();
    assert_eq!(first.data, second.data);
    let first = texture_minimap(side, true, &land, &params.bigf0).unwrap();
    let second = texture_minimap(side, true, &land, &params.bigf0).unwrap();
    assert_eq!(first.data, second.data);
    let first = texture_water(17, &params).unwrap();
    let second = texture_water(17, &params).unwrap();
    assert_eq!(first.data, second.data);
}

#[test]
fn full_tables_never_fail() {
    for seed in 0..4u64 {
        let params = tables(100 + seed);
        let side = 2;
        let mut cells = grid(side, 200 + seed);
        cells[0] = cell(0, 0, 0, false);
        cells[1] = cell(1151, 255, 255, true);
        cells[2] = cell(1151, 0, 255, false);
        let land = LandscapeFull::new(side, cells);
        assert!(texture_land(side, &land, &params).is_ok());
        assert!(texture_globe(side, &land, &params).is_ok());
    }
}

#[test]
fn land_texture_reports_the_first_cell_that_fails() {
    let side = 2;
    let mut params = tables(41);
    for d in params.disp0.iter_mut() {
        *d = 0;
    }
    let low = cell(0, 0, 0, false);
    let high = cell(1000, 0, 0x80, false);
    let land = LandscapeFull::new(side, vec![low, low, low, high]);
    // The highest row that is read is that of height 0x400, at the lower
    // right corner of cell (0, 0): its texels come near it but stay below.
    params.bigf0.truncate(0x400 * 256);
    let r = texture_land(side, &land, &params);
    // Cell (1, 1) has the high cell as its upper left corner.
    assert_eq!(
        r.err(),
        Some(TextureError::TableBounds {
            table: TableName::Bigf0,
            x: 1,
            y: 1,
            index: 0x400 * 256 + 0x80,
        })
    );
    let r = texture_globe(side, &land, &params);
    assert_eq!(
        r.err(),
        Some(TextureError::TableBounds {
            table: TableName::Bigf0,
            x: 1,
            y: 1,
            index: 0x400 * 256 + 0x80,
        })
    );
}

#[test]
fn textures_reject_a_width_that_is_not_the_landscape_s() {
    let params = tables(51);
    let land = LandscapeFull::new(2, grid(2, 52));
    let shape = TextureError::InputShape { table: TableName::LandGrid, expected: 2, actual: 3 };
    assert_eq!(texture_land(3, &land, &params).err(), Some(shape));
    assert_eq!(texture_globe(3, &land, &params).err(), Some(shape));
    assert_eq!(texture_minimap(3, true, &land, &params.bigf0).err(), Some(shape));
}

#[test]
fn minimap_of_flat_water_is_one_entry_of_bigf0() {
    let water = cell(0, 0, 0x80, false);
    let land = LandscapeFull::new(2, vec![water; 4]);
    let mut bigf0 = vec![0u8; 1152 * 256];
    let mut cliff0 = vec![0u8; 256 * 128];
    bigf0[0x7840] = 42;
    cliff0[42] = 7;
    let image = texture_minimap(2, true, &land, &bigf0).unwrap();
    assert_eq!(image.width, 2);
    assert_eq!(image.height, 2);
    assert_eq!(image.data, vec![42u8; 4]);
}

#[test]
fn minimap_looks_up_height_and_brightness() {
    let mut bigf0 = vec![0u8; 1152 * 256];
    bigf0[0x7840 + 5 * 256] = 11;
    bigf0[(300 + 0x8c) * 256 + 20 * 256] = 22;
    bigf0[0x47f * 256 + 0 * 256] = 33;
    let last = bigf0.len() - 1;
    bigf0[last] = 44;
    assert_eq!(minimap_pixel(true, &cell(5, 0, 0x80, false), &bigf0), Ok(11));
    assert_eq!(minimap_pixel(true, &cell(300, 1, 20, false), &bigf0), Ok(22));
    // The height is lifted by 0x8c and stops at 0x47f.
    assert_eq!(minimap_pixel(true, &cell(1100, 9, 0, false), &bigf0), Ok(33));
    assert_eq!(minimap_pixel(true, &cell(1011, 9, 0, false), &bigf0), Ok(33));
    // Behind the end of the table the last entry is read.
    assert_eq!(minimap_pixel(true, &cell(1100, 9, 255, false), &bigf0), Ok(44));
    assert_eq!(minimap_pixel(true, &cell(1100, 9, 1, false), &bigf0), Ok(44));
}

#[test]
fn minimap_draws_marked_cells_only_without_the_flag() {
    let mut bigf0 = vec![9u8; 1152 * 256];
    bigf0[0x7840] = 42;
    let mut marked = cell(0, 0, 0x80, false);
    marked.flags = 8;
    let mut other = cell(0, 0, 0x80, false);
    other.flags = 0xffff_fff7;
    assert_eq!(minimap_pixel(false, &marked, &bigf0), Ok(42));
    assert_eq!(minimap_pixel(false, &other, &bigf0), Ok(0));
    assert_eq!(minimap_pixel(true, &other, &bigf0), Ok(42));
    let land = LandscapeFull::new(2, vec![marked, other, other, marked]);
    let image = texture_minimap(2, false, &land, &bigf0).unwrap();
    assert_eq!(image.data, vec![42, 0, 0, 42]);
    let image = texture_minimap(2, true, &land, &bigf0).unwrap();
    assert_eq!(image.data, vec![42, 42, 42, 42]);
}

#[test]
fn minimap_puts_each_cell_at_its_column_and_row() {
    let mut bigf0 = vec![0u8; 1152 * 256];
    for h in 0..6usize {
        bigf0[0x7840 + h * 256] = 10 + h as u8;
    }
    let cells: Vec<LandPos> = (0..9u16).map(|k| cell(k % 6, 0, 0x80, false)).collect();
    let land = LandscapeFull::new(3, cells);
    let image = texture_minimap(3, true, &land, &bigf0).unwrap();
    assert_eq!(image.data, vec![10, 11, 12, 13, 14, 15, 10, 11, 12]);
}

#[test]
fn minimap_reports_a_short_table() {
    let bigf0 = vec![0u8; 0x7840 + 256];
    let cells = vec![
        cell(0, 0, 0x80, false),
        cell(1, 0, 0x80, false),
        cell(2, 0, 0x80, false),
        cell(0, 0, 0x80, false),
    ];
    let land = LandscapeFull::new(2, cells);
    assert_eq!(
        texture_minimap(2, true, &land, &bigf0).err(),
        Some(TextureError::TableBounds {
            table: TableName::Bigf0,
            x: 1,
            y: 0,
            index: 0x7840 + 256,
        })
    );
    let empty: Vec<u8> = Vec::new();
    assert_eq!(
        minimap_pixel(true, &cell(0, 1, 0, false), &empty),
        Err(LookupError { table: TableName::Bigf0, index: -1 })
    );
}

#[test]
fn water_over_a_flat_field_is_one_entry_of_bigf0() {
    let mut params = tables(61);
    for d in params.disp0.iter_mut() {
        *d = 0;
    }
    params.bigf0[0x4b80] = 99;
    let image = texture_water(0, &params).unwrap();
    assert_eq!(image.width, 256);
    assert_eq!(image.height, 256);
    assert_eq!(image.data, vec![99u8; 65536]);
}

#[test]
fn water_scrolls_and_drops_the_low_bits() {
    let mut params = tables(62);
    for d in params.disp0.iter_mut() {
        *d = 0;
    }
    for (k, b) in params.bigf0.iter_mut().enumerate() {
        *b = (k / 256) as u8;
    }
    // 0x1a9 * 5 = 2125 is 2 in whole 1024ths; 0x1a9 * -128 without its sign
    // is 54400, 53 in whole 1024ths.
    params.disp0[3 * 256 + 7] = 5;
    params.disp0[4 * 256 + 9] = -128;
    params.disp0[255 * 256] = -5;
    let base = (0x4b80 / 256) as u8;
    assert_eq!(water_pixel(0, &params, 3, 7), Ok(base + 2));
    assert_eq!(water_pixel(0, &params, 4, 9), Ok(base + 53));
    assert_eq!(water_pixel(0, &params, 255, 0), Ok(base + 2));
    assert_eq!(water_pixel(0, &params, 3, 8), Ok(base));
    let image = texture_water(2, &params).unwrap();
    assert_eq!(image.data[1 * 256 + 7], base + 2);
    assert_eq!(image.data[2 * 256 + 9], base + 53);
    assert_eq!(image.data[253 * 256], base + 2);
    let image = texture_water(usize::MAX, &params).unwrap();
    assert_eq!(image.data[4 * 256 + 7], base + 2);
    assert_eq!(image.data[0], base + 2);
}

#[test]
fn water_reports_the_pixel_that_fails() {
    let mut params = tables(63);
    for d in params.disp0.iter_mut() {
        *d = 0;
    }
    params.disp0[2 * 256 + 5] = 100;
    // 0x1a9 * 100 = 42500 is 41 in whole 1024ths.
    params.bigf0.truncate(0x4b80 + 41 * 256);
    assert_eq!(
        texture_water(0, &params).err(),
        Some(TextureError::TableBounds {
            table: TableName::Bigf0,
            x: 5,
            y: 2,
            index: 0x4b80 + 41 * 256,
        })
    );
    params.disp0.truncate(300);
    assert_eq!(
        texture_water(0, &params).err(),
        Some(TextureError::TableBounds { table: TableName::Disp0, x: 44, y: 1, index: 300 })
    );
}
