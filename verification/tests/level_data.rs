use faithful::pop::error::{TableName, TextureError};
use faithful::pop::landscape::common::{LandPos, LandPosIterator, LandscapeFull};
use faithful::pop::landscape::disp::{
    texture_bigf0, texture_bigf0_disp, texture_disp_full, texture_disp_quarter,
};
use faithful::pop::landscape::{draw_texture_u8, make_texture_land};
use faithful::pop::level::{
    read_bin16, read_bin_i8, read_disp, read_landscape_type, read_level, read_pal,
    GlobeTextureParams, Landscape, LevelPaths, LevelRes, ObjectPaths, Sunlight,
};
use faithful::pop::pls::decode;
use faithful::pop::types::ByteReader;

fn words(values: &[u16]) -> Vec<u8> {
    let mut bytes = Vec::new();
    for v in values {
        bytes.push((v & 0xff) as u8);
        bytes.push((v >> 8) as u8);
    }
    bytes
}

fn params_with(disp0: Vec<i8>, bigf0: Vec<u8>) -> GlobeTextureParams {
    GlobeTextureParams {
        disp0,
        cliff0: vec![0u8; 256 * 128],
        bigf0,
        fade0: Vec::new(),
        static_landscape_array: GlobeTextureParams::make_static_array(),
        palette: Vec::new(),
    }
}

#[test]
fn static_array_is_flat_then_a_ramp_then_flat() {
    let v = GlobeTextureParams::make_static_array();
    assert_eq!(v.len(), 1152);
    assert_eq!(v[0], 0x140);
    assert_eq!(v[127], 0x140);
    assert_eq!(v[128], 0xd3d - 1024 * 3);
    assert_eq!(v[128], 317);
    assert_eq!(v[129], 320);
    assert_eq!(v[250], 683);
    assert_eq!(v[361], 1016);
    assert_eq!(v[362], 0x400);
    assert_eq!(v[1151], 0x400);
}

#[test]
fn displacement_field_is_mirrored_on_load() {
    let mut raw = vec![0u8; 65536];
    for (k, b) in raw.iter_mut().enumerate() {
        *b = ((k % 256) ^ (k / 256)) as u8;
    }
    let disp = read_disp(&raw).unwrap();
    assert_eq!(disp.len(), 65536);
    for row in 0..256usize {
        for col in 0..127usize {
            assert_eq!(disp[row * 256 + col], raw[row * 256 + 255 - col] as i8);
            assert_eq!(disp[row * 256 + 255 - col], raw[row * 256 + col] as i8);
        }
        // The two columns in the middle stay where they are.
        assert_eq!(disp[row * 256 + 127], raw[row * 256 + 127] as i8);
        assert_eq!(disp[row * 256 + 128], raw[row * 256 + 128] as i8);
    }
    assert_eq!(disp[0], -1);
    assert_eq!(disp[255], 0);
}

#[test]
fn displacement_field_of_another_length_is_rejected() {
    for len in [0usize, 65535, 65537] {
        let raw = vec![0u8; len];
        assert_eq!(
            read_disp(&raw).err(),
            Some(TextureError::InputShape { table: TableName::Disp0, expected: 65536, actual: len })
        );
    }
    let r = GlobeTextureParams::from_level(Vec::new(), &[1, 2, 3], Vec::new(), Vec::new(), Vec::new());
    assert_eq!(
        r.err(),
        Some(TextureError::InputShape { table: TableName::Disp0, expected: 65536, actual: 3 })
    );
}

#[test]
fn tables_are_put_together() {
    let mut raw = vec![0u8; 65536];
    raw[255] = 0x80;
    raw[1] = 5;
    let params = GlobeTextureParams::from_level(vec![1], &raw, vec![2, 2], vec![3], vec![4])
        .ok()
        .unwrap();
    assert_eq!(params.palette, vec![1]);
    assert_eq!(params.bigf0, vec![2, 2]);
    assert_eq!(params.cliff0, vec![3]);
    assert_eq!(params.fade0, vec![4]);
    assert_eq!(params.disp0[0], -128);
    assert_eq!(params.disp0[254], 5);
    assert_eq!(params.static_landscape_array, GlobeTextureParams::make_static_array());
}

#[test]
fn bytes_are_read_as_signed_and_as_words() {
    assert_eq!(read_bin_i8(&[0, 1, 127, 128, 255]), vec![0, 1, 127, -128, -1]);
    assert_eq!(read_bin16(&[1, 0, 0, 1, 0xff, 0xff, 7]), vec![1, 256, 0xffff]);
    assert_eq!(read_bin16(&[9]), Vec::<u16>::new());
    assert_eq!(read_pal(&[1, 2, 3]), vec![1, 2, 3]);
}

#[test]
fn heights_run_down_the_columns_and_are_flipped() {
    let values: Vec<u16> = (0..36u16).map(|k| 100 + k).collect();
    let grid = Landscape::<6>::from_reader(&words(&values));
    assert_eq!(grid.land_size(), 6);
    // Of six rows the first two and the last two change places.
    let from_row = [5usize, 4, 2, 3, 1, 0];
    for i in 0..6 {
        for j in 0..6 {
            assert_eq!(grid.height[i][j], 100 + (j * 6 + from_row[i]) as u16);
        }
    }
    let v = grid.to_vec();
    assert_eq!(v.len(), 36);
    assert_eq!(v[0], 105);
    assert_eq!(v[1], 111);
    assert_eq!(v[6], 104);
    assert_eq!(v[35], 130);
}

#[test]
fn short_height_file_leaves_water() {
    let grid = Landscape::<2>::from_reader(&[1, 0, 2, 0, 3]);
    assert_eq!(grid.height, [[1, 0], [2, 0]]);
    let grid = Landscape::<2>::from_reader(&[1, 0, 2, 0, 3, 0, 4, 0, 5, 0]);
    assert_eq!(grid.height, [[1, 3], [2, 4]]);
    let empty = Landscape::<3>::new();
    assert_eq!(empty.height, [[0; 3]; 3]);
    assert_eq!(Landscape::<3>::default().height, [[0; 3]; 3]);
}

#[test]
fn water_next_to_land_is_found_round_the_torus() {
    let mut grid = Landscape::<4>::new();
    grid.height[0][0] = 9;
    for i in 0..4 {
        for j in 0..4 {
            let near = (i == 0 || i == 1 || i == 3) && (j == 0 || j == 1 || j == 3);
            assert_eq!(grid.is_land_adj(i, j), near && !(i == 0 && j == 0));
        }
    }
    let shores = grid.make_shores();
    assert_eq!(shores.height, [[9, 1, 0, 1], [1, 1, 0, 1], [0, 0, 0, 0], [1, 1, 0, 1]]);
}

#[test]
fn cells_are_made_from_heights() {
    let mut grid = Landscape::<3>::new();
    grid.height[1][1] = 50;
    let cells = LandPos::from_landscape(&grid);
    assert_eq!(cells.len(), 9);
    for (k, c) in cells.iter().enumerate() {
        assert_eq!(c.height, if k == 4 { 50 } else { 0 });
        assert_eq!(c.brightness, 0x80);
        assert_eq!(c.c_1, 0);
        assert_eq!(c.flags, 0);
        assert_eq!(c.land_adj, k != 4);
    }
}

#[test]
fn sun_lights_slopes() {
    let mut grid = Landscape::<3>::new();
    grid.height[1][1] = 100;
    grid.height[2][1] = 1;
    let cells = LandPos::from_landscape_sun(&grid);
    // b = 0x93 + (below - here) * 0x93 - (here - right) * 0x93, the
    // brightness is b / 0x15e + 0x80 without its fraction, in a byte.
    // Flat water: 147 / 350 + 128.
    assert_eq!(cells[8].brightness, 128);
    // Cell (1, 1): below 1, right 0: 147 + (1 - 100) * 147 - 100 * 147 = -29106.
    assert_eq!(cells[4].brightness, 44);
    // Cell (0, 1): below 100: 147 + 100 * 147 = 14847.
    assert_eq!(cells[1].brightness, 170);
    // Cell (1, 0): right 100: 147 + 100 * 147.
    assert_eq!(cells[3].brightness, 170);
    // Cell (2, 1): height 1, below (0, 1) is 0, right 0: 147 - 147 - 147.
    assert_eq!(cells[7].brightness, 127);
    grid.height[1][1] = 1000;
    let cells = LandPos::from_landscape_sun(&grid);
    assert_eq!(cells[4].brightness, 0);
    assert_eq!(cells[1].brightness, 255);
    assert_eq!(cells[4].height, 1000);
    assert!(cells[1].land_adj);
}

#[test]
fn walk_hands_out_cells_row_by_row() {
    let cells: Vec<LandPos> = (0..4u16)
        .map(|k| LandPos {
            flags: 0,
            height: k,
            b_2: 0,
            c: 0,
            c_1: 0,
            c_2: 0,
            c_3: 0,
            brightness: 0,
            ph: 0,
            ph_2: 0,
            land_adj: false,
        })
        .collect();
    let land = LandscapeFull::new(2, cells);
    assert_eq!(land.land_size(), 2);
    let mut walk = land.iter();
    let mut seen = Vec::new();
    while let Some(p) = walk.next() {
        seen.push((p.x, p.y, p.pos.height));
    }
    assert_eq!(seen, vec![(0, 0, 0), (1, 0, 1), (0, 1, 2), (1, 1, 3)]);
    assert!(walk.next().is_none());
}

#[test]
fn quads_wrap_round_the_edges_of_the_grid() {
    let side = 9usize;
    let cells: Vec<LandPos> = (0..81u16)
        .map(|k| LandPos {
            flags: 0,
            height: k,
            b_2: 0,
            c: 0,
            c_1: 0,
            c_2: 0,
            c_3: 0,
            brightness: 0,
            ph: 0,
            ph_2: 0,
            land_adj: false,
        })
        .collect();
    let land = LandscapeFull::new(side, cells);
    let mut walk = land.iter_quad();
    let mut count = 0;
    while let Some((x, y, quad)) = walk.next() {
        assert_eq!(x, count % side);
        assert_eq!(y, count / side);
        let nx = (x + 1) % side;
        let ny = (y + 1) % side;
        assert_eq!(quad.p1.height as usize, y * side + x);
        assert_eq!(quad.p2.height as usize, y * side + nx);
        assert_eq!(quad.p3.height as usize, ny * side + x);
        assert_eq!(quad.p4.height as usize, ny * side + nx);
        assert_eq!(quad.x as usize, x % 8);
        assert_eq!(quad.y as usize, (y + 1) % 8);
        count += 1;
    }
    assert_eq!(count, 81);
    let empty = LandscapeFull::new(0, Vec::new());
    let mut walk: LandPosIterator<'_, (usize, usize, _)> = empty.iter_quad();
    assert!(walk.next().is_none());
}

#[test]
fn file_names_follow_the_landscape_type() {
    let paths = LevelPaths::from_base("/pop/data", "q");
    assert_eq!(paths.palette, "/pop/data/pal0-q.dat");
    assert_eq!(paths.disp0, "/pop/data/disp0-q.dat");
    assert_eq!(paths.bigf0, "/pop/data/bigf0-q.dat");
    assert_eq!(paths.cliff0, "/pop/data/cliff0-q.dat");
    assert_eq!(paths.fade0, "/pop/data/fade0-q.dat");
    assert_eq!(paths.bl320, "/pop/data/BL320-Q.DAT");
    assert_eq!(paths.bl160, "/pop/data/BL160-Q.DAT");
    let paths = LevelPaths::from_default_dir("base", "0");
    assert_eq!(paths.palette, "base/data/pal0-0.dat");
    assert_eq!(paths.bl320, "base/data/BL320-0.DAT");
    assert_eq!(LevelPaths::dat_path("levels", 7), "levels/levl2007.dat");
    assert_eq!(LevelPaths::dat_path("levels", 255), "levels/levl2255.dat");
    assert_eq!(LevelPaths::hdr_path("levels", 40), "levels/levl2040.hdr");
    assert_eq!(LevelPaths::hdr_path("", 0), "/levl2000.hdr");
}

#[test]
fn object_file_names_follow_the_bank() {
    let paths = ObjectPaths::from_base("dir", "3");
    assert_eq!(paths.objs0_dat, "dir/OBJS0-3.DAT");
    assert_eq!(paths.objs0_ver, "dir/objs0-3.ver");
    assert_eq!(paths.pnts0, "dir/PNTS0-3.DAT");
    assert_eq!(paths.facs0, "dir/FACS0-3.DAT");
    assert_eq!(paths.morph0, "dir/morph0-3.dat");
    assert_eq!(paths.shapes, "dir/SHAPES.DAT");
    let paths = ObjectPaths::from_default_dir("pop", "b");
    assert_eq!(paths.objs0_dat, "pop/objects/OBJS0-b.DAT");
    assert_eq!(paths.shapes, "pop/objects/SHAPES.DAT");
}

#[test]
fn header_names_the_landscape_type() {
    let mut hdr = vec![0u8; 97];
    for (t, key) in [(0u8, "0"), (9, "9"), (10, "a"), (11, "b"), (35, "z")] {
        hdr[96] = t;
        assert_eq!(read_landscape_type(&hdr), key);
    }
    hdr[96] = 20;
    let (dat, key) = read_level("levels", 12, &hdr);
    assert_eq!(dat, "levels/levl2012.dat");
    assert_eq!(key, "k");
}

#[test]
fn sunlight_is_three_bytes() {
    let s = Sunlight::new(1, 2, 3);
    assert_eq!((s.v1, s.v2, s.v3), (1, 2, 3));
    let data = [9u8, 8, 7, 6];
    let mut reader = ByteReader::new(&data);
    let s = Sunlight::from_reader(&mut reader);
    assert_eq!((s.v1, s.v2, s.v3), (9, 8, 7));
    assert_eq!(reader.pos, 3);
}

#[test]
fn level_file_holds_heights_tribes_sunlight_and_units() {
    let mut level = vec![0u8; 0x14043 + 55 * 2 + 10];
    level[0] = 0x34;
    level[1] = 0x12;
    level[2 * 127] = 7;
    for k in 0..64 {
        level[0x14000 + k] = k as u8;
    }
    level[0x14040] = 10;
    level[0x14041] = 20;
    level[0x14042] = 30;
    let unit = 0x14043 + 55;
    level[unit] = 1;
    level[unit + 1] = 2;
    level[unit + 2] = 3;
    level[unit + 3] = 0x10;
    level[unit + 4] = 0x20;
    level[unit + 7] = 0x78;
    level[unit + 10] = 0x12;
    level[unit + 15] = 99;
    level[unit + 54] = 98;
    let paths = LevelPaths::from_base("d", "1");
    let params = params_with(vec![0i8; 65536], vec![0u8; 16]);
    let res = LevelRes::from_data(paths, params, &level).unwrap();
    // The file runs down the columns, and the rows are flipped.
    assert_eq!(res.landscape.height[127][0], 0x1234);
    assert_eq!(res.landscape.height[0][0], 7);
    assert_eq!(res.tribes.len(), 4);
    assert_eq!(res.tribes[0].data[0], 0);
    assert_eq!(res.tribes[1].data[0], 16);
    assert_eq!(res.tribes[3].data[15], 63);
    assert_eq!((res.sunlight.v1, res.sunlight.v2, res.sunlight.v3), (10, 20, 30));
    assert_eq!(res.units.len(), 2);
    assert_eq!(res.units[0].unit_type, 0);
    assert_eq!(res.units[1].unit_type, 1);
    assert_eq!(res.units[1].unit_class, 2);
    assert_eq!(res.units[1].tribe_index, 3);
    assert_eq!(res.units[1].loc_x, 0x2010);
    assert_eq!(res.units[1].f1, 0x1200_0078);
    assert_eq!(res.units[1].fd[0], 99);
    assert_eq!(res.units[1].fd[39], 98);
    assert_eq!(res.paths.palette, "d/pal0-1.dat");
    let paths = LevelPaths::from_base("d", "1");
    let params = params_with(Vec::new(), Vec::new());
    assert!(LevelRes::from_data(paths, params, &level[0..0x14042]).is_none());
}

#[test]
fn play_list_is_unscrambled() {
    let mut data = vec![0u8; 10];
    decode(&mut data);
    // Bit 5, 6, 7, 0, 1, ... stays, all others are turned over.
    assert_eq!(data, vec![0xdf, 0xbf, 0x7f, 0xfe, 0xfd, 0xfb, 0xf7, 0xef, 0xdf, 0xbf]);
    let mut data: Vec<u8> = (0..=255u8).cycle().take(600).collect();
    let plain = data.clone();
    decode(&mut data);
    for (k, v) in data.iter().enumerate() {
        assert_eq!(*v, !(plain[k] ^ (1u8 << ((k + 5) % 8))));
    }
    decode(&mut data);
    assert_eq!(data, plain);
}

#[test]
fn displacement_field_is_dumped_as_unsigned() {
    let mut disp0 = vec![0i8; 65536];
    disp0[0] = -1;
    disp0[300] = 5;
    disp0[65535] = -128;
    let params = params_with(disp0, Vec::new());
    let texture = texture_disp_full(&params).unwrap();
    assert_eq!(texture.len(), 65536);
    assert_eq!(texture[0], 255);
    assert_eq!(texture[300], 5);
    assert_eq!(texture[65535], 128);
    let params = params_with(vec![0i8; 65535], Vec::new());
    let short = TextureError::InputShape { table: TableName::Disp0, expected: 65536, actual: 65535 };
    assert_eq!(texture_disp_full(&params).err(), Some(short));
    assert_eq!(texture_disp_quarter(&params).err(), Some(short));
    assert_eq!(texture_bigf0_disp(0, 1, 0, &params).err(), Some(short));
}

#[test]
fn quarter_view_reads_every_fourth_entry() {
    let mut disp0 = vec![0i8; 65536];
    for (k, d) in disp0.iter_mut().enumerate() {
        *d = ((k * 3 + k / 256) & 0xff) as u8 as i8;
    }
    let params = params_with(disp0, Vec::new());
    let texture = texture_disp_quarter(&params).unwrap();
    assert_eq!(texture.len(), 64 * 64);
    for i in 0..8usize {
        for j in 0..8usize {
            for v in 0..8usize {
                for h in 0..8usize {
                    let from = (i << 8) + (j << 5) + (v << 10) + h * 4;
                    let to = i * 64 * 8 + j * 8 + v * 64 + h;
                    assert_eq!(texture[to], params.disp0[from] as u8);
                }
            }
        }
    }
}

#[test]
fn row_of_bigf0_is_drawn_down_the_image() {
    let mut bigf0 = vec![0u8; 3 * 256];
    for k in 0..256 {
        bigf0[2 * 256 + k] = k as u8;
    }
    let params = params_with(Vec::new(), bigf0);
    let image = texture_bigf0(2, &params).unwrap();
    assert_eq!((image.width, image.height), (256, 256));
    for y in 0..256usize {
        for x in 0..256usize {
            assert_eq!(image.data[y * 256 + x], y as u8);
        }
    }
    assert_eq!(
        texture_bigf0(3, &params).err(),
        Some(TextureError::InputShape { table: TableName::Bigf0, expected: 1024, actual: 768 })
    );
}

#[test]
fn row_of_bigf0_is_seen_through_the_field() {
    let mut disp0 = vec![0i8; 65536];
    disp0[0] = 7;
    disp0[1] = -7;
    disp0[2] = -128;
    disp0[256] = 127;
    let mut bigf0 = vec![0u8; 4 * 256];
    for (k, b) in bigf0.iter_mut().enumerate() {
        *b = (k % 256) as u8;
    }
    let params = params_with(disp0, bigf0);
    let texture = texture_bigf0_disp(1, 2, 10, &params).unwrap();
    assert_eq!(texture.len(), 65536);
    assert_eq!(texture[0], 13);
    // Towards zero: -7 / 2 is -3.
    assert_eq!(texture[1], 7);
    assert_eq!(texture[2], (256 - 64 + 10) as u8);
    assert_eq!(texture[256], 73);
    assert_eq!(texture[3], 10);
    let texture = texture_bigf0_disp(1, -2, 0, &params).unwrap();
    assert_eq!(texture[0], (256 - 3) as u8);
    assert_eq!(texture[1], 3);
    assert_eq!(texture[2], 64);
    assert_eq!(
        texture_bigf0_disp(0, 1, 0, &params).err(),
        Some(TextureError::TableBounds { table: TableName::Bigf0, x: 1, y: 0, index: -7 })
    );
    assert_eq!(
        texture_bigf0_disp(3, 1, 200, &params).err(),
        Some(TextureError::TableBounds { table: TableName::Bigf0, x: 0, y: 1, index: 1095 })
    );
}

#[test]
fn texture_is_drawn_with_the_palette() {
    let pal: Vec<u8> = (0..128u32 * 4).map(|k| (k % 251) as u8).collect();
    let texture = [0u8, 1, 127, 200];
    let img = draw_texture_u8(&pal, 2, &texture);
    assert_eq!(
        img,
        vec![0, 1, 2, 4, 5, 6, pal[508], pal[509], pal[510], pal[508], pal[509], pal[510]]
    );
}

#[test]
fn land_texture_of_a_level_is_made_with_the_sun() {
    let mut level = vec![0u8; 0x14043];
    for k in 0..128 * 128 {
        level[2 * k] = ((k * 7) % 200) as u8;
    }
    let mut bigf0 = vec![0u8; 1152 * 256];
    for (k, b) in bigf0.iter_mut().enumerate() {
        *b = (k / 256 % 251) as u8;
    }
    let mut params = params_with(vec![0i8; 65536], bigf0);
    for (k, c) in params.cliff0.iter_mut().enumerate() {
        *c = (k % 128) as u8;
    }
    let paths = LevelPaths::from_base("d", "1");
    let res = LevelRes::from_data(paths, params, &level).unwrap();
    let data = make_texture_land(&res, None).ok().unwrap();
    assert_eq!(data.len(), 4096 * 4096);
    // The upper left texel is that of the cell (0, 0): no displacement, no
    // cliff, so the row of its effective height in bigf0.
    let h = res.landscape.height[0][0];
    let effective = if h > 0 || res.landscape.is_land_adj(0, 0) { h + 0x96 } else { 0x4b };
    assert_eq!(data[0], (effective as usize % 251 % 128) as u8);
}

#[test]
fn file_names_take_the_upper_case_key_as_given() {
    let paths = LevelPaths::from_keys("d", "ab", "XY");
    assert_eq!(paths.palette, "d/pal0-ab.dat");
    assert_eq!(paths.fade0, "d/fade0-ab.dat");
    assert_eq!(paths.bl320, "d/BL320-XY.DAT");
    assert_eq!(paths.bl160, "d/BL160-XY.DAT");
    let paths = LevelPaths::from_base("d", "straße");
    assert_eq!(paths.disp0, "d/disp0-straße.dat");
    assert_eq!(paths.bl160, "d/BL160-STRASSE.DAT");
}
