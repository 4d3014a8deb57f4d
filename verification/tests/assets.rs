use faithful::pop::animation::{
    elements_link, frames_link, AnimationElement, AnimationFrame, AnimationSequence,
    AnimationsData, ElementRotate, VeleRaw, VfraRaw, VstartRaw,
};
use faithful::pop::objects::{FaceRaw, Object3D, ObjectRaw, PointRaw, Shape};
use faithful::pop::psfb::{ContainerPSFB, SpritePSFB};
use faithful::pop::types::{BinDeserializer, ByteReader, Image, ImageInfo, ImageStorageSource};
use faithful::pop::units::{read_bytes, TribeConfigRaw, UnitRaw};

fn vele(sprite_index: u16, flags: u16, next_index: u16) -> VeleRaw {
    VeleRaw { sprite_index, coord_x: -3, coord_y: 4, flags, next_index }
}

fn element(flags: u16, uvar5: u16, sprite_index: usize) -> AnimationElement {
    AnimationElement {
        sprite_index,
        coord_x: 0,
        coord_y: 0,
        tribe: 0,
        flags,
        uvar5,
        original_flags: 0,
    }
}

fn ids(lists: &[Vec<AnimationElement>]) -> Vec<Vec<usize>> {
    lists.iter().map(|l| l.iter().map(|e| e.sprite_index).collect()).collect()
}

#[test]
fn reader_hands_out_bytes_front_to_back() {
    let data = [1u8, 2, 3, 4, 5];
    let mut reader = ByteReader::new(&data);
    assert_eq!(reader.read_exact(2), Some(&data[0..2]));
    assert_eq!(reader.pos, 2);
    assert_eq!(reader.read_exact(4), None);
    assert_eq!(reader.pos, 2);
    assert_eq!(reader.read_exact(0), Some(&data[2..2]));
    assert_eq!(reader.read_to_end(), &data[2..5]);
    assert_eq!(reader.pos, 5);
    assert_eq!(reader.read_exact(1), None);
    assert_eq!(reader.read_to_end(), &data[5..5]);
}

#[test]
fn animation_records_are_read_low_byte_first() {
    let bytes = [0x34u8, 0x12, 0xff, 0xff, 0x02, 0x00, 0x10, 0x02, 0x07, 0x00, 0xaa];
    let mut reader = ByteReader::new(&bytes);
    let v = VeleRaw::from_reader(&mut reader).unwrap();
    assert_eq!(v.sprite_index, 0x1234);
    assert_eq!(v.coord_x, -1);
    assert_eq!(v.coord_y, 2);
    assert_eq!(v.flags, 0x210);
    assert_eq!(v.next_index, 7);
    assert!(VeleRaw::from_reader(&mut reader).is_none());
    assert_eq!(reader.pos, 10);
    let f = VfraRaw::decode(&[1, 2, 30, 40, 5, 6, 0xfe, 0xff]);
    assert_eq!((f.index, f.width, f.height, f.f3, f.f4, f.next_vfra), (0x201, 30, 40, 5, 6, 0xfffe));
    let s = VstartRaw::decode(&[9, 1, 2, 3]);
    assert_eq!((s.index, s.f1, s.f2), (0x109, 2, 3));
    assert_eq!((VeleRaw::size(), VfraRaw::size(), VstartRaw::size()), (10, 8, 4));
}

#[test]
fn records_are_read_as_long_as_they_are_whole() {
    let bytes: Vec<u8> = (0..23u8).collect();
    let mut reader = ByteReader::new(&bytes);
    let all = VstartRaw::from_reader_vec(&mut reader);
    assert_eq!(all.len(), 5);
    assert_eq!(reader.pos, 20);
    for (k, s) in all.iter().enumerate() {
        assert_eq!(s.index as usize, 4 * k + 256 * (4 * k + 1));
        assert_eq!(s.f1 as usize, 4 * k + 2);
        assert_eq!(s.f2 as usize, 4 * k + 3);
    }
    let mut vele_reader = ByteReader::new(&bytes);
    let mut vfra_reader = ByteReader::new(&bytes);
    let mut vstart_reader = ByteReader::new(&bytes);
    let data =
        AnimationsData::from_reader(&mut vele_reader, &mut vfra_reader, &mut vstart_reader);
    assert_eq!((data.vele.len(), data.vfra.len(), data.vstart.len()), (2, 2, 5));
    assert_eq!(data.vele[1].sprite_index, 10 + 256 * 11);
    assert_eq!(data.vfra[1].width, 10);
}

#[test]
fn element_kinds_are_told_by_flags() {
    let e = element(0x4, 0, 0);
    assert!(e.is_hidden());
    assert!(e.is_common());
    let e = element(0x10, 1, 0);
    assert!(e.is_tribe_specific());
    assert!(!e.is_type_specific());
    assert!(!e.is_common());
    let e = element(0x11, 1, 0);
    assert!(!e.is_tribe_specific());
    assert!(e.is_common());
    let e = element(0, 2, 0);
    assert!(e.is_type_specific());
    assert!(!e.is_common());
    assert!(!e.is_hidden());
    let mut e = element(0, 0, 0);
    e.tribe = 5;
    assert_eq!(e.get_tribe(), 5);
    assert!(matches!(element(0x1, 0, 0).get_rotate(), ElementRotate::RotateHorizontal));
    assert!(matches!(element(0x3, 0, 0).get_rotate(), ElementRotate::RotateHorizontal));
    assert!(matches!(element(0x2, 0, 0).get_rotate(), ElementRotate::RotateVertical));
    assert!(matches!(element(0x1c, 0, 0).get_rotate(), ElementRotate::NoRotate));
}

#[test]
fn elements_follow_their_chain() {
    let records = vec![
        vele(0, 0, 0),
        vele(12, 0x0610, 3),
        vele(600, 0, 0),
        vele(35, 0xffff, 2),
    ];
    let sprites = AnimationElement::from_data(1, &records);
    assert_eq!(sprites.len(), 3);
    assert_eq!(sprites[0].sprite_index, 2);
    assert_eq!(sprites[0].tribe, 3);
    assert_eq!(sprites[0].flags, 0x10);
    assert_eq!(sprites[0].uvar5, 1);
    assert_eq!(sprites[0].original_flags, 0x0610);
    assert_eq!((sprites[0].coord_x, sprites[0].coord_y), (-3, 4));
    assert_eq!(sprites[1].sprite_index, 5);
    assert_eq!(sprites[1].tribe, 127);
    assert_eq!(sprites[1].flags, 0x1f);
    assert_eq!(sprites[1].uvar5, 0x1f);
    assert_eq!(sprites[2].sprite_index, 100);
    assert!(AnimationElement::from_data(0, &records).is_empty());
}

#[test]
fn a_chain_that_goes_round_stops_after_256_elements() {
    let records = vec![vele(0, 0, 0), vele(6, 0, 2), vele(12, 0, 1)];
    let sprites = AnimationElement::from_data(1, &records);
    assert_eq!(sprites.len(), 256);
    assert_eq!(sprites[0].sprite_index, 1);
    assert_eq!(sprites[1].sprite_index, 2);
    assert_eq!(sprites[255].sprite_index, 2);
}

#[test]
fn frames_follow_their_chain_back_to_the_start() {
    let veles = vec![vele(0, 0, 0), vele(6, 0, 0), vele(12, 0, 1)];
    let frame = |index: u16, next_vfra: u16| VfraRaw {
        index,
        width: 10 + index as u8,
        height: 20,
        f3: 0,
        f4: 0,
        next_vfra,
    };
    let vfras = vec![frame(0, 0), frame(1, 2), frame(2, 3), frame(0, 1), frame(2, 0)];
    let frames = AnimationFrame::from_data(1, &vfras, &veles);
    assert_eq!(frames.len(), 3);
    assert_eq!(frames[0].index, 1);
    assert_eq!(frames[0].width(), 11);
    assert_eq!(frames[0].height(), 20);
    assert_eq!(frames[0].sprites.len(), 1);
    assert_eq!(frames[1].index, 2);
    assert_eq!(frames[1].sprites.len(), 2);
    assert_eq!(frames[2].index, 3);
    assert!(frames[2].sprites.is_empty());
    let frames = AnimationFrame::from_data(4, &vfras, &veles);
    assert_eq!(frames.len(), 1);
    assert!(AnimationFrame::from_data(0, &vfras, &veles).is_empty());
    // A chain that runs into a loop without its start stops after 256.
    let vfras = vec![frame(0, 0), frame(0, 2), frame(0, 3), frame(0, 2)];
    assert_eq!(AnimationFrame::from_data(1, &vfras, &veles).len(), 256);
}

#[test]
fn sequences_are_numbered_and_their_frames_joined() {
    let data = AnimationsData {
        vele: vec![vele(0, 0, 0), vele(6, 0, 0)],
        vfra: vec![
            VfraRaw { index: 0, width: 0, height: 0, f3: 0, f4: 0, next_vfra: 0 },
            VfraRaw { index: 1, width: 1, height: 1, f3: 0, f4: 0, next_vfra: 2 },
            VfraRaw { index: 0, width: 2, height: 2, f3: 0, f4: 0, next_vfra: 0 },
        ],
        vstart: vec![
            VstartRaw { index: 2, f1: 0, f2: 0 },
            VstartRaw { index: 0, f1: 0, f2: 0 },
            VstartRaw { index: 1, f1: 0, f2: 0 },
        ],
    };
    let seqs = AnimationSequence::from_data(&data);
    assert_eq!(seqs.len(), 3);
    assert_eq!(seqs[0].index, 0);
    assert_eq!(seqs[2].index, 2);
    assert_eq!(seqs[0].frames.len(), 1);
    assert_eq!(seqs[1].frames.len(), 0);
    assert_eq!(seqs[2].frames.len(), 2);
    let frames = AnimationSequence::get_frames(&seqs);
    let indices: Vec<usize> = frames.iter().map(|f| f.index).collect();
    assert_eq!(indices, vec![2, 1, 2]);
    assert_eq!(frames[1].sprites.len(), 1);
    assert_eq!(frames[1].duplicate().width, 1);
}

#[test]
fn permutations_choose_one_element_for_tribe_and_kind() {
    let frame = AnimationFrame {
        index: 0,
        width: 1,
        height: 1,
        sprites: vec![
            element(0, 0, 1),
            element(4, 0, 2),
            element(0x10, 1, 3),
            element(0, 2, 4),
            element(0, 3, 5),
            element(0x10, 1, 6),
        ],
    };
    assert_eq!(ids(&frame.get_permutations(false, false)), vec![vec![1]]);
    // The elements for a tribe are the common ones and those of one tribe.
    assert_eq!(
        ids(&frame.get_permutations(true, false)),
        vec![vec![1, 1], vec![1, 3], vec![1, 6]]
    );
    assert_eq!(
        ids(&frame.get_permutations(false, true)),
        vec![vec![1, 1], vec![1, 4], vec![1, 5]]
    );
    assert_eq!(
        ids(&frame.get_permutations(true, true)),
        vec![
            vec![1, 1, 1],
            vec![1, 1, 4],
            vec![1, 1, 5],
            vec![1, 3, 1],
            vec![1, 3, 4],
            vec![1, 3, 5],
            vec![1, 6, 1],
            vec![1, 6, 4],
            vec![1, 6, 5],
        ]
    );
    let hidden = AnimationFrame { index: 0, width: 1, height: 1, sprites: vec![element(4, 2, 9)] };
    assert_eq!(ids(&hidden.get_permutations(true, true)), vec![Vec::<usize>::new()]);
    let kinds = AnimationFrame {
        index: 0,
        width: 1,
        height: 1,
        sprites: vec![element(0, 2, 7), element(0x10, 1, 8)],
    };
    assert_eq!(ids(&kinds.get_permutations(true, true)), vec![vec![8, 7]]);
    assert_eq!(ids(&kinds.get_permutations(false, true)), vec![vec![7]]);
    assert_eq!(ids(&kinds.get_permutations(true, false)), vec![vec![8]]);
}

#[test]
fn sprite_lines_are_runs_and_gaps() {
    let sprite = SpritePSFB { index: 0, offset: 0, width: 6, height: 4 };
    assert_eq!(sprite.width(), 6);
    assert_eq!(sprite.height(), 4);
    // An empty line; two pixels, a gap of three, one pixel; a gap of one and
    // two pixels; an empty line.
    let data = [0u8, 2, 11, 12, 0xfd, 1, 13, 0, 0xff, 2, 21, 22, 0, 0];
    let mut image = Image::allocate(6, 4);
    sprite.to_storage(&mut image, &data);
    assert_eq!(
        image.data,
        vec![0, 0, 0, 0, 0, 0, 11, 12, 0, 0, 0, 13, 0, 21, 22, 0, 0, 0, 0, 0, 0, 0, 0, 0]
    );
    let none = SpritePSFB { index: 0, offset: 0, width: 6, height: 0 };
    let mut image = Image::allocate(6, 4);
    none.to_storage(&mut image, &[]);
    assert_eq!(image.data, vec![0u8; 24]);
}

#[test]
fn container_lists_its_sprites() {
    let mut file = vec![0x50u8, 0x53, 0x46, 0x42, 2, 0, 0, 0];
    file.extend_from_slice(&[2, 0, 1, 0, 24, 0, 0, 0]);
    file.extend_from_slice(&[1, 0, 2, 0, 28, 0, 0, 0]);
    file.extend_from_slice(&[2, 7, 8, 0]);
    file.extend_from_slice(&[1, 5, 0, 1, 6, 0]);
    let mut reader = ByteReader::new(&file);
    let container = ContainerPSFB::from_reader(&mut reader).unwrap();
    assert_eq!(container.len(), 2);
    assert!(!container.is_empty());
    assert_eq!(container.size(), file.len());
    let info = container.sprites_info();
    assert_eq!((info[0].index, info[0].offset, info[0].width, info[0].height), (0, 24, 2, 1));
    assert_eq!((info[1].index, info[1].offset, info[1].width, info[1].height), (1, 28, 1, 2));
    assert_eq!(container.get_info(1).map(|s| s.offset), Some(28));
    assert!(container.get_info(2).is_none());
    assert_eq!(container.get_image(0).map(|i| i.data), Some(vec![7, 8]));
    assert_eq!(container.get_image(1).map(|i| i.data), Some(vec![5, 6]));
    assert!(container.get_image(2).is_none());
    let mut images: Vec<Image> = Vec::new();
    assert!(container.get_storage(1, &mut images));
    assert!(container.get_storage(0, &mut images));
    assert!(!container.get_storage(2, &mut images));
    assert_eq!(images.len(), 2);
    assert_eq!(images[0].data, vec![5, 6]);
    assert_eq!((images[1].width, images[1].height), (2, 1));
    assert!(images.get_storage(&(1usize, 1usize)).is_some());
}

#[test]
fn container_needs_its_marker() {
    let file = [0x50u8, 0x53, 0x46, 0x43, 0, 0, 0, 0, 1];
    let mut reader = ByteReader::new(&file);
    assert!(ContainerPSFB::from_reader(&mut reader).is_none());
    assert_eq!(reader.pos, 4);
    let file = [0x50u8, 0x53, 0x46, 0x43];
    let mut reader = ByteReader::new(&file);
    assert!(ContainerPSFB::from_reader(&mut reader).is_none());
    let file = [0x50u8, 0x53, 0x46, 0x42, 0, 0, 0, 0, 1];
    let mut reader = ByteReader::new(&file);
    let container = ContainerPSFB::from_reader(&mut reader).unwrap();
    assert!(container.is_empty());
    assert_eq!(container.len(), 0);
    assert_eq!(container.size(), 9);
}

#[test]
fn unit_and_tribe_records_are_read() {
    let bytes: Vec<u8> = (0..55u8).collect();
    let unit = UnitRaw::decode(&bytes);
    assert_eq!((unit.unit_type, unit.unit_class, unit.tribe_index), (0, 1, 2));
    assert_eq!(unit.loc_x, 0x0403);
    assert_eq!(unit.loc_y, 0x0605);
    assert_eq!(unit.f1, 0x0a09_0807);
    assert_eq!(unit.f2, 0x0c0b);
    assert_eq!(unit.f3, 0x0e0d);
    assert_eq!(unit.fd[0], 15);
    assert_eq!(unit.fd[39], 54);
    let tribe = TribeConfigRaw::decode(&bytes[3..19]);
    assert_eq!(tribe.data[0], 3);
    assert_eq!(tribe.data[15], 18);
    assert_eq!((UnitRaw::size(), TribeConfigRaw::size()), (55, 16));
    assert_eq!(read_bytes::<3>(&bytes, 50), [50, 51, 52]);
}

#[test]
fn object_records_are_read() {
    let bytes: Vec<u8> = (0..60u8).collect();
    let o = ObjectRaw::decode(&bytes[0..54]);
    assert_eq!(o.flags, 0x0100);
    assert_eq!(o.facs_num, 0x0302);
    assert_eq!(o.pnts_num, 0x0504);
    assert_eq!((o.f1, o.morph_index), (6, 7));
    assert_eq!(o.f2, 0x0b0a_0908);
    assert_eq!(o.coord_scale, 0x0f0e_0d0c);
    assert_eq!(o.facs_ptr, 0x1312_1110);
    assert_eq!(o.facs_ptr_end, 0x1716_1514);
    assert_eq!(o.pnts_ptr, 0x1b1a_1918);
    assert_eq!(o.pnts_ptr_end, 0x1f1e_1d1c);
    assert_eq!(o.f4, 0x2120);
    assert_eq!(o.f9, 0x2b2a);
    assert_eq!((o.shapes_index, o.u1), (44, 45));
    assert_eq!(o.f13, 0x3534);
    let s = Shape::decode(&bytes[0..48]);
    assert_eq!((s.x1, s.y1, s.x2, s.y2), (0, 1, 2, 3));
    assert_eq!(s.unknown[0], 4);
    assert_eq!(s.unknown[39], 43);
    assert_eq!(s.ptr, 0x2f2e_2d2c);
    let p = PointRaw::decode(&[0xff, 0xff, 0, 0x80, 5, 0]);
    assert_eq!((p.x, p.y, p.z), (-1, -32768, 5));
    let f = FaceRaw::decode(&bytes);
    assert_eq!(f.f0, 0x0100);
    assert_eq!(f.tex_index, 0x0302);
    assert_eq!(f.num_points, 6);
    assert_eq!(f.point_1_u, 0x0b0a_0908);
    assert_eq!(f.point_4_v, 0x2726_2524);
    assert_eq!(f.point_1, 0x2928);
    assert_eq!(f.point_4, 0x2f2e);
    assert_eq!(f.ff4, 0x3938);
    assert_eq!((f.f8, f.flags2), (58, 59));
    assert_eq!(
        (ObjectRaw::size(), Shape::size(), PointRaw::size(), FaceRaw::size()),
        (54, 48, 6, 60)
    );
}

fn object(facs_num: u16, facs: (u32, u32), pnts: (u32, u32)) -> ObjectRaw {
    let mut o = ObjectRaw::decode(&[0u8; 54]);
    o.facs_num = facs_num;
    o.facs_ptr = facs.0;
    o.facs_ptr_end = facs.1;
    o.pnts_ptr = pnts.0;
    o.pnts_ptr_end = pnts.1;
    o.coord_scale = 300;
    o
}

fn face(tex_index: i16, num_points: u8, points: [u16; 4]) -> FaceRaw {
    let mut f = FaceRaw::decode(&[0u8; 60]);
    f.tex_index = tex_index;
    f.num_points = num_points;
    f.point_1 = points[0];
    f.point_2 = points[1];
    f.point_3 = points[2];
    f.point_4 = points[3];
    f.point_1_u = 10;
    f.point_1_v = 11;
    f.point_2_u = 20;
    f.point_3_v = 31;
    f.point_4_u = 40;
    f.point_4_v = 41;
    f
}

#[test]
fn objects_take_their_faces_and_points_by_number() {
    let points: Vec<PointRaw> = (0..6i16).map(|k| PointRaw { x: k, y: -k, z: 10 * k }).collect();
    let faces = vec![
        face(1, 3, [0, 1, 2, 9]),
        face(2, 4, [0, 1, 2, 3]),
        face(3, 9, [2, 1, 0, 1]),
    ];
    let objects = vec![
        object(2, (1, 3), (1, 5)),
        object(0, (9, 9), (9, 9)),
        object(1, (3, 4), (3, 6)),
        object(1, (2, 2), (4, 4)),
    ];
    assert!(Object3D::records_fit(&objects, &faces, &points));
    let made = Object3D::create_objects(&objects, &faces, &points);
    assert_eq!(made.len(), 3);
    assert_eq!(made[0].faces.len(), 2);
    assert_eq!(made[0].points.len(), 4);
    assert_eq!(made[0].faces[1].tex_index, 2);
    assert_eq!(made[0].points[3].x, 3);
    assert_eq!(made[1].faces.len(), 1);
    assert_eq!(made[1].faces[0].tex_index, 3);
    assert_eq!(made[1].points.len(), 3);
    assert_eq!(made[1].points[0].x, 2);
    assert!(made[2].faces.is_empty());
    assert!(made[2].points.is_empty());
    assert_eq!(made[0].coord_scale(), 300);
    let one = Object3D::create(&objects[2], &faces, &points);
    assert_eq!(one.points[2].z, 40);
    let bad = vec![object(1, (3, 5), (1, 2))];
    assert!(!Object3D::records_fit(&bad, &faces, &points));
    let bad = vec![object(1, (0, 1), (1, 2))];
    assert!(!Object3D::records_fit(&bad, &faces, &points));
    let unused = vec![object(0, (0, 100), (0, 100))];
    assert!(Object3D::records_fit(&unused, &faces, &points));
    assert!(Object3D::create_objects(&unused, &faces, &points).is_empty());
}

#[test]
fn faces_look_up_their_points() {
    let points: Vec<PointRaw> = (0..6i16).map(|k| PointRaw { x: k, y: -k, z: 10 * k }).collect();
    let faces = vec![face(1, 3, [0, 1, 2, 9]), face(2, 4, [3, 2, 1, 5]), face(3, 9, [2, 1, 0, 4])];
    let objects = vec![object(3, (1, 4), (1, 7))];
    let made = Object3D::create_objects(&objects, &faces, &points);
    let mut walk = made[0].iter_face();
    let first = walk.next().unwrap();
    assert_eq!(first.texture_index, 1);
    assert_eq!(first.vertex_num, 3);
    assert_eq!(first.vertex[1].point.x, 1);
    assert_eq!((first.vertex[0].u, first.vertex[0].v), (10, 11));
    assert_eq!((first.vertex[1].u, first.vertex[2].v), (20, 31));
    assert_eq!(
        (first.vertex[3].point.x, first.vertex[3].point.z, first.vertex[3].u, first.vertex[3].v),
        (0, 0, 0, 0)
    );
    let second = walk.next().unwrap();
    assert_eq!(second.vertex_num, 4);
    assert_eq!(second.vertex[0].point.z, 30);
    assert_eq!(second.vertex[3].point.z, 50);
    assert_eq!((second.vertex[3].u, second.vertex[3].v), (40, 41));
    let third = walk.next().unwrap();
    assert_eq!(third.vertex_num, 4);
    assert_eq!(third.vertex[3].point.x, 4);
    assert!(walk.next().is_none());
    assert!(walk.next().is_none());
}

#[test]
fn chains_are_checked_against_the_files() {
    let veles = vec![vele(0, 0, 0), vele(6, 0, 2), vele(12, 0, 9)];
    assert!(elements_link(0, &veles));
    assert!(!elements_link(1, &veles));
    assert!(!elements_link(3, &veles));
    let round = vec![vele(0, 0, 0), vele(6, 0, 2), vele(12, 0, 1)];
    assert!(elements_link(1, &round));
    let frame = |index: u16, next_vfra: u16| VfraRaw {
        index,
        width: 1,
        height: 1,
        f3: 0,
        f4: 0,
        next_vfra,
    };
    let vfras = vec![frame(0, 0), frame(1, 2), frame(0, 1), frame(0, 7), frame(1, 4)];
    assert!(frames_link(1, &vfras, &round));
    assert!(!frames_link(1, &vfras, &veles));
    assert!(frames_link(2, &vfras, &round));
    assert!(!frames_link(3, &vfras, &round));
    assert!(frames_link(4, &vfras, &round));
    assert!(frames_link(0, &vfras, &veles));
    let mut data = AnimationsData {
        vele: round,
        vfra: vfras,
        vstart: vec![VstartRaw { index: 1, f1: 0, f2: 0 }, VstartRaw { index: 0, f1: 0, f2: 0 }],
    };
    assert!(data.is_linked());
    data.vstart.push(VstartRaw { index: 3, f1: 0, f2: 0 });
    assert!(!data.is_linked());
}

#[test]
fn sprites_are_checked_before_they_are_drawn() {
    let sprite = SpritePSFB { index: 0, offset: 0, width: 4, height: 2 };
    assert!(sprite.lines_fit(&[2, 1, 2, 0, 0xfe, 1, 9, 0], 4));
    // The second line leaves the data.
    assert!(!sprite.lines_fit(&[2, 1, 2, 0, 0xfe, 1, 9], 4));
    assert!(!sprite.lines_fit(&[2, 1, 2, 0, 3, 1, 9], 4));
    // A gap of 128 cannot be told from a run.
    assert!(!sprite.lines_fit(&[0x80, 0, 0], 4));
    // A run may start at the end of the row but not behind it.
    assert!(sprite.lines_fit(&[0xfc, 1, 9, 0, 0], 4));
    assert!(!sprite.lines_fit(&[0xfb, 1, 9, 0, 0], 4));
    assert!(sprite.lines_fit(&[0xfb, 0, 0], 4));
    let none = SpritePSFB { index: 0, offset: 0, width: 4, height: 0 };
    assert!(none.lines_fit(&[], 0));
    let mut file = vec![0x50u8, 0x53, 0x46, 0x42, 3, 0, 0, 0];
    file.extend_from_slice(&[2, 0, 1, 0, 32, 0, 0, 0]);
    file.extend_from_slice(&[1, 0, 2, 0, 36, 0, 0, 0]);
    file.extend_from_slice(&[1, 0, 1, 0, 3, 0, 0, 0]);
    file.extend_from_slice(&[2, 7, 8, 0]);
    file.extend_from_slice(&[1, 5, 0, 1, 6]);
    let mut reader = ByteReader::new(&file);
    let container = ContainerPSFB::from_reader(&mut reader).unwrap();
    assert!(container.image_ready(0));
    assert!(!container.image_ready(1));
    assert!(!container.image_ready(2));
}

#[test]
fn faces_are_drawn_as_one_or_two_triangles() {
    let points: Vec<PointRaw> = (0..6i16).map(|k| PointRaw { x: k, y: -k, z: 10 * k }).collect();
    let faces = vec![face(1, 3, [0, 1, 2, 9]), face(2, 4, [3, 2, 1, 5])];
    let objects = vec![object(2, (1, 3), (1, 7))];
    let made = Object3D::create_objects(&objects, &faces, &points);
    let mut walk = made[0].iter_face();
    let first = walk.next().unwrap().corners();
    let xs: Vec<i16> = first.iter().map(|c| c.point.x).collect();
    assert_eq!(xs, vec![0, 1, 2]);
    let second = walk.next().unwrap().corners();
    let xs: Vec<i16> = second.iter().map(|c| c.point.x).collect();
    assert_eq!(xs, vec![3, 2, 1, 1, 5, 3]);
    assert_eq!((second[4].u, second[4].v), (40, 41));
}

#[test]
fn header_entry_is_width_height_and_offset() {
    assert_eq!(SpritePSFB::size(), 8);
    let entry = SpritePSFB::decode(&[0x02, 0x01, 0x04, 0x03, 0x08, 0x07, 0x06, 0x05]);
    assert_eq!(entry.index, 0);
    assert_eq!(entry.width, 0x0102);
    assert_eq!(entry.height, 0x0304);
    assert_eq!(entry.offset, 0x0506_0708);
    let file = [1u8, 0, 2, 0, 16, 0, 0, 0, 9];
    let mut reader = ByteReader::new(&file);
    let entry = SpritePSFB::from_reader(&mut reader).unwrap();
    assert_eq!((entry.width, entry.height, entry.offset), (1, 2, 16));
    assert_eq!(reader.pos, 8);
    assert!(SpritePSFB::from_reader(&mut reader).is_none());
    assert_eq!(reader.pos, 8);
}
