use faithful::landscape::{gen_mesh, mesh_height, shift_n};
use faithful::model::{FromUsize, IterTriangleModel, MeshModel, TriangleModel, VertexModel};
use faithful::pop::bl320::{
    make_bl320_texture_rgba, palette_holds, read_bl160, read_bl320, read_textures,
};
use faithful::pop::landscape::disp::{disp_pixel, divides, make_disp_texture2};
use faithful::pop::landscape::{draw_palette, palette_fits, seq_to_pal};
use faithful::pop::level::GlobeTextureParams;
use faithful::pop::types::{
    image_allocator_1d_horizontal, image_allocator_1d_vertical, pal_image_allocator_1d_vertical,
    ByteReader, ComposeHorizontal, ComposeVertical, Image, ImageComposer1D, ImageSourceComposed,
    PalImage,
};
use faithful::view::{
    next_level, next_object, next_program, prev_level, prev_object, prev_program, ActionMode,
    CameraAction, Screen, SteerKey,
};

#[test]
fn mesh_takes_vertices_and_indices() {
    let mut mesh: MeshModel<(i32, i32), u16> = MeshModel::new();
    assert!(mesh.vertices.is_empty());
    assert!(mesh.indices.is_empty());
    assert_eq!(mesh.push_vertex((1, 2)), 0);
    assert_eq!(mesh.push_vertex((3, 4)), 1);
    mesh.push_index(1);
    mesh.set_vertex(0, (5, 6));
    assert_eq!(*mesh.get_vertex(0), (5, 6));
    assert_eq!(*mesh.get_vertex(1), (3, 4));
    mesh.push_triangle((7, 7), (8, 8), (9, 9));
    mesh.push_triangle_indexes(4, 3, 2);
    assert_eq!(mesh.vertices, vec![(5, 6), (3, 4), (7, 7), (8, 8), (9, 9)]);
    assert_eq!(mesh.indices, vec![1, 4, 3, 2]);
    let empty: MeshModel<u8, u16> = MeshModel::default();
    assert!(empty.vertices.is_empty());
    assert_eq!(<u16 as FromUsize>::from_usize(0x1_0005), 5);
    assert_eq!(7u16.to_usize(), 7);
}

#[test]
fn triangles_are_walked_by_vertices_or_by_indices() {
    let mut mesh: MeshModel<u8, u16> = MeshModel::new();
    for v in 10..17u8 {
        mesh.push_vertex(v);
    }
    let mut walk = mesh.iter();
    let mut seen = Vec::new();
    while let Some((n, t)) = walk.next() {
        seen.push((n, *t.a, *t.b, *t.c));
    }
    // The seventh vertex makes no triangle.
    assert_eq!(seen, vec![(0, 10, 11, 12), (1, 13, 14, 15)]);
    assert!(walk.next().is_none());
    for i in [6u16, 0, 3, 1, 1, 2, 5, 5] {
        mesh.push_index(i);
    }
    let mut walk = mesh.iter();
    let mut seen = Vec::new();
    while let Some((n, t)) = walk.next() {
        seen.push((n, *t.a, *t.b, *t.c));
    }
    assert_eq!(seen, vec![(0, 16, 10, 13), (1, 11, 11, 12)]);
    let empty: MeshModel<u8, u16> = MeshModel::new();
    assert!(empty.iter().next().is_none());
}

#[test]
fn landscape_mesh_has_two_triangles_for_each_square() {
    let mesh = gen_mesh(3);
    assert_eq!(mesh.len(), 54);
    let square = |i: u8, j: u8| {
        vec![(i, j), (i, j + 1), (i + 1, j), (i + 1, j + 1), (i, j + 1), (i + 1, j)]
    };
    assert_eq!(&mesh[0..6], &square(0, 0)[..]);
    assert_eq!(&mesh[6..12], &square(0, 1)[..]);
    assert_eq!(&mesh[12..18], &[(0, 0); 6]);
    assert_eq!(&mesh[18..24], &square(1, 0)[..]);
    assert_eq!(&mesh[24..30], &square(1, 1)[..]);
    assert_eq!(&mesh[30..54], &[(0, 0); 24]);
    assert_eq!(gen_mesh(1), vec![(0, 0); 6]);
    let mesh = gen_mesh(128);
    assert_eq!(mesh.len(), 128 * 128 * 6);
    assert_eq!(mesh[(126 * 128 + 126) * 6 + 3], (127, 127));
}

#[test]
fn mesh_is_shifted_round_the_ring() {
    assert_eq!(shift_n(0, 128, 1), 1);
    assert_eq!(shift_n(127, 128, 1), 0);
    assert_eq!(shift_n(0, 128, -1), 127);
    assert_eq!(shift_n(5, 128, -128), 5);
    assert_eq!(shift_n(5, 128, -133), 0);
    assert_eq!(shift_n(5, 128, 300), 49);
    assert_eq!(shift_n(3, 7, 0), 3);
    let mut heights = [[0u16; 4]; 4];
    for (i, row) in heights.iter_mut().enumerate() {
        for (j, h) in row.iter_mut().enumerate() {
            *h = (10 * i + j) as u16;
        }
    }
    assert_eq!(mesh_height(&heights, (1, 2), 0, 0), 21);
    assert_eq!(mesh_height(&heights, (1, 2), 3, 1), 30);
    assert_eq!(mesh_height(&heights, (255, 255), 3, 3), 22);
}

#[test]
fn keys_steer_the_camera_by_the_mode() {
    let mut mode = ActionMode::GlobalRotateXZ;
    assert_eq!(mode.process_key(SteerKey::Up), CameraAction::TurnX(true));
    assert_eq!(mode.process_key(SteerKey::Down), CameraAction::TurnX(false));
    assert_eq!(mode.process_key(SteerKey::Left), CameraAction::TurnZ(true));
    assert_eq!(mode.process_key(SteerKey::Right), CameraAction::TurnZ(false));
    assert_eq!(mode.process_key(SteerKey::Other), CameraAction::Nothing);
    assert_eq!(mode, ActionMode::GlobalRotateXZ);
    assert_eq!(mode.process_key(SteerKey::P), CameraAction::Nothing);
    assert_eq!(mode, ActionMode::GlobalRotateXY);
    assert_eq!(mode.process_key(SteerKey::Left), CameraAction::TurnY(true));
    assert_eq!(mode.process_key(SteerKey::Right), CameraAction::TurnY(false));
    assert_eq!(mode.process_key(SteerKey::Up), CameraAction::TurnX(true));
    mode.process_key(SteerKey::P);
    assert_eq!(mode, ActionMode::GlobalMoveXY);
    assert_eq!(mode.process_key(SteerKey::Up), CameraAction::MoveX(true));
    assert_eq!(mode.process_key(SteerKey::Down), CameraAction::MoveX(false));
    assert_eq!(mode.process_key(SteerKey::Left), CameraAction::MoveY(true));
    assert_eq!(mode.process_key(SteerKey::Right), CameraAction::MoveY(false));
    mode.process_key(SteerKey::P);
    assert_eq!(mode, ActionMode::GlobalMoveXZ);
    assert_eq!(mode.process_key(SteerKey::Up), CameraAction::MoveZ(true));
    assert_eq!(mode.process_key(SteerKey::Left), CameraAction::MoveZ(true));
    assert_eq!(mode.process_key(SteerKey::Right), CameraAction::MoveZ(false));
    assert_eq!(mode.process_key(SteerKey::Down), CameraAction::MoveZ(false));
    mode.process_key(SteerKey::P);
    assert_eq!(mode, ActionMode::GlobalMoveRot);
    assert_eq!(mode.process_key(SteerKey::Up), CameraAction::EyeZ(false));
    assert_eq!(mode.process_key(SteerKey::Down), CameraAction::EyeZ(true));
    assert_eq!(mode.process_key(SteerKey::Left), CameraAction::TurnZ(false));
    assert_eq!(mode.process_key(SteerKey::Right), CameraAction::TurnZ(true));
    mode.process_key(SteerKey::P);
    assert_eq!(mode, ActionMode::GlobalRotateXZ);
    let screen = Screen { width: 800, height: 600 };
    assert_eq!((screen.width, screen.height), (800, 600));
}

#[test]
fn programs_are_chosen_round_the_list() {
    assert_eq!(next_program(0, 3), 1);
    assert_eq!(next_program(2, 3), 0);
    assert_eq!(next_program(0, 1), 0);
    assert_eq!(prev_program(0, 3), 2);
    assert_eq!(prev_program(2, 3), 1);
    assert_eq!(prev_program(5, 3), 1);
    assert_eq!(prev_program(4, 0), 4);
    assert_eq!(prev_program(0, 1), 0);
}

#[test]
fn displacements_are_shown_in_red_and_blue() {
    assert_eq!(disp_pixel(0), (0, 0, 0));
    assert_eq!(disp_pixel(1), (2, 0, 0));
    assert_eq!(disp_pixel(127), (254, 0, 0));
    assert_eq!(disp_pixel(-1), (0, 0, 2));
    assert_eq!(disp_pixel(-127), (0, 0, 254));
    assert_eq!(disp_pixel(-128), (0, 0, 254));
    let mut disp0 = vec![0i8; 65536];
    disp0[3 * 256 + 5] = 7;
    disp0[255 * 256] = -9;
    let params = GlobeTextureParams {
        disp0,
        cliff0: Vec::new(),
        bigf0: Vec::new(),
        fade0: Vec::new(),
        static_landscape_array: Vec::new(),
        palette: Vec::new(),
    };
    let img = make_disp_texture2(&params).unwrap();
    assert_eq!(img.len(), 3 * 65536);
    // Row 3, column 5 of the field is the pixel at column 3, row 5.
    assert_eq!(&img[(5 * 256 + 3) * 3..(5 * 256 + 3) * 3 + 3], &[14, 0, 0]);
    assert_eq!(&img[255 * 3..255 * 3 + 3], &[0, 0, 18]);
    assert_eq!(&img[0..3], &[0, 0, 0]);
}

#[test]
fn palette_of_four_bytes_becomes_colours() {
    let pal: Vec<u8> = (0..1024u32).map(|k| (k % 256) as u8).collect();
    let colours = seq_to_pal(&pal);
    assert_eq!(colours[0], (0, 1, 2));
    assert_eq!(colours[1], (4, 5, 6));
    assert_eq!(colours[254], (248, 249, 250));
    assert_eq!(colours[255], (0, 0, 0));
    let colours = seq_to_pal(&pal[0..1019]);
    assert_eq!(colours[254], (248, 249, 250));
}

#[test]
fn tile_set_is_read_texture_by_texture() {
    let mut file = vec![0u8; 2 * 6 + 4];
    for (k, b) in file.iter_mut().enumerate() {
        *b = k as u8 + 1;
    }
    let allocator = image_allocator_1d_horizontal();
    let source: ImageSourceComposed<ImageComposer1D<ComposeHorizontal>, Image> =
        read_bl160(3, 2, &allocator, &file);
    let image = source.get_image();
    assert_eq!((image.width, image.height), (6, 2));
    assert_eq!(image.data, vec![1, 2, 3, 7, 8, 9, 4, 5, 6, 10, 11, 12]);
    let allocator = image_allocator_1d_vertical();
    let source: ImageSourceComposed<ImageComposer1D<ComposeVertical>, Image> =
        read_bl160(3, 2, &allocator, &file);
    let image = source.get_image();
    assert_eq!((image.width, image.height), (3, 4));
    assert_eq!(image.data, (1..=12u8).collect::<Vec<u8>>());
    // With room for one texture only, the second finds none.
    let mut reader = ByteReader::new(&file);
    let source: ImageSourceComposed<ImageComposer1D<ComposeVertical>, Image> =
        read_textures(&allocator, &mut reader, 11, 3, 2);
    assert_eq!(reader.pos, 12);
    assert_eq!(source.get_image().data, vec![1, 2, 3, 4, 5, 6]);
}

#[test]
fn large_tile_set_is_drawn_with_the_palette() {
    let mut file = vec![0u8; 2 * 65536 + 100];
    for (k, b) in file.iter_mut().enumerate() {
        *b = ((k * 7 + k / 256) % 256) as u8;
    }
    let pal: Vec<u8> = (0..1024u32).map(|k| ((k * 5) % 251) as u8).collect();
    let (width, height, data) = make_bl320_texture_rgba(&file, &pal);
    assert_eq!((width, height), (256, 512));
    assert_eq!(data.len(), 4 * 2 * 65536);
    for k in [0usize, 1, 255, 256, 65535, 65536, 131071] {
        for c in 0..4 {
            assert_eq!(data[4 * k + c], pal[file[k] as usize * 4 + c]);
        }
    }
    let allocator = pal_image_allocator_1d_vertical(&pal);
    let source: ImageSourceComposed<ImageComposer1D<ComposeVertical>, PalImage> =
        read_bl320(&allocator, &file);
    let image = source.get_image();
    assert_eq!((image.width, image.height), (256, 512));
    assert_eq!(image.data, data);
    let (width, height, data) = make_bl320_texture_rgba(&file[0..65535], &pal);
    assert_eq!((width, height, data.len()), (256, 0, 0));
}

#[test]
fn levels_go_round_from_the_last_to_the_first() {
    assert_eq!(next_level(1), 2);
    assert_eq!(next_level(24), 25);
    assert_eq!(next_level(25), 1);
    assert_eq!(next_level(0), 1);
    assert_eq!(next_level(254), 21);
    assert_eq!(prev_level(1), 25);
    assert_eq!(prev_level(2), 1);
    assert_eq!(prev_level(25), 24);
}

#[test]
fn triangles_are_checked_before_they_are_handed_out() {
    let mut mesh: MeshModel<u8, u16> = MeshModel::new();
    mesh.push_vertex(1);
    mesh.push_vertex(2);
    mesh.push_vertex(3);
    assert!(mesh.iter().triangle_ready());
    mesh.push_triangle_indexes(0, 2, 1);
    mesh.push_triangle_indexes(0, 3, 1);
    let mut walk = mesh.iter();
    assert!(walk.triangle_ready());
    assert!(walk.next().is_some());
    assert!(!walk.triangle_ready());
    mesh.indices.truncate(5);
    let mut walk = mesh.iter();
    walk.next();
    assert!(walk.triangle_ready());
    assert!(walk.next().is_none());
}

#[test]
fn palettes_are_checked_against_what_is_drawn() {
    let mut file = vec![3u8; 65536 + 5];
    let pal = vec![0u8; 16];
    assert!(palette_holds(&pal, &file));
    file[65535] = 4;
    assert!(!palette_holds(&pal, &file));
    file[65535] = 3;
    file[65536] = 200;
    assert!(palette_holds(&pal, &file));
    assert!(palette_holds(&[], &file[0..65535]));
    assert!(palette_fits(&[0u8; 11], 2, &[0, 1, 2, 2, 9]));
    assert!(!palette_fits(&[0u8; 10], 2, &[0, 1, 2, 2, 9]));
    assert!(palette_fits(&[0u8; 511], 1, &[255]));
    assert!(!palette_fits(&[0u8; 510], 1, &[127]));
    let mut params = GlobeTextureParams {
        disp0: vec![1i8; 70000],
        cliff0: Vec::new(),
        bigf0: Vec::new(),
        fade0: Vec::new(),
        static_landscape_array: Vec::new(),
        palette: Vec::new(),
    };
    assert!(divides(-1, &params));
    assert!(!divides(0, &params));
    params.disp0[65536] = -128;
    assert!(divides(-1, &params));
    params.disp0[65535] = -128;
    assert!(!divides(-1, &params));
    assert!(divides(1, &params));
    assert!(divides(-2, &params));
}

#[test]
fn palette_is_drawn_as_bars_of_one_height() {
    let mut pal: Vec<u8> = Vec::new();
    for c in 0..3u8 {
        pal.push(10 + c);
        pal.push(20 + c);
        pal.push(30 + c);
        pal.push(0xff);
    }
    let img = draw_palette(&pal, 2, 7, 3);
    assert_eq!(img.len(), 3 * 2 * 7);
    for y in 0..7usize {
        for x in 0..2usize {
            let at = (y * 2 + x) * 3;
            let expected: [u8; 3] = if y < 6 {
                let c = (y / 2) as u8;
                [10 + c, 20 + c, 30 + c]
            } else {
                [0, 0, 0]
            };
            assert_eq!(&img[at..at + 3], &expected[..], "pixel {} {}", x, y);
        }
    }
}

#[test]
fn palette_of_more_colours_than_rows_is_black() {
    let pal: Vec<u8> = vec![9; 16];
    let img = draw_palette(&pal, 3, 2, 4);
    assert_eq!(img, vec![0u8; 18]);
}

#[test]
fn palette_may_end_after_the_last_blue_byte() {
    let pal: Vec<u8> = vec![1, 2, 3, 0, 4, 5, 6];
    let img = draw_palette(&pal, 1, 2, 2);
    assert_eq!(img, vec![1, 2, 3, 4, 5, 6]);
}

#[test]
fn object_steps_stop_at_both_ends() {
    assert_eq!(prev_object(0), 0);
    assert_eq!(prev_object(5), 4);
    assert_eq!(next_object(4, 6), 5);
    assert_eq!(next_object(5, 6), 5);
    assert_eq!(next_object(0, 0), 0);
}
