//! The meshes of the game's objects: the three files of records, and the
//! objects with their faces and points that they describe.

use vstd::prelude::*;
use crate::pop::types::{read_u16_le, read_u32_le, u16_le, u32_le, BinDeserializer};
use crate::pop::units::read_bytes;

verus! {

/// An object as its file holds it: which faces and which points of the
/// other two files are its own.
#[derive(Debug, Copy, Clone)]
pub struct ObjectRaw {
    pub flags: u16,
    pub facs_num: u16,
    pub pnts_num: u16,
    pub f1: u8,
    pub morph_index: u8,
    pub f2: u32,
    pub coord_scale: u32,
    /// The number of the first face, counted from 1.
    pub facs_ptr: u32,
    /// The number behind the last face.
    pub facs_ptr_end: u32,
    /// The number of the first point, counted from 1.
    pub pnts_ptr: u32,
    /// The number behind the last point.
    pub pnts_ptr_end: u32,
    pub f4: i16,
    pub f5: i16,
    pub f6: i16,
    pub f7: u16,
    pub f8: u16,
    pub f9: u16,
    pub shapes_index: u8,
    pub u1: u8,
    pub f10: u16,
    pub f11: u16,
    pub f12: u16,
    pub f13: u16,
}

impl BinDeserializer for ObjectRaw {
    open spec fn spec_size() -> usize {
        54
    }

    open spec fn decodes(bytes: Seq<u8>, record: &Self) -> bool {
        *record == (ObjectRaw {
            flags: u16_le(bytes, 0),
            facs_num: u16_le(bytes, 2),
            pnts_num: u16_le(bytes, 4),
            f1: bytes[6],
            morph_index: bytes[7],
            f2: u32_le(bytes, 8),
            coord_scale: u32_le(bytes, 12),
            facs_ptr: u32_le(bytes, 16),
            facs_ptr_end: u32_le(bytes, 20),
            pnts_ptr: u32_le(bytes, 24),
            pnts_ptr_end: u32_le(bytes, 28),
            f4: u16_le(bytes, 32) as i16,
            f5: u16_le(bytes, 34) as i16,
            f6: u16_le(bytes, 36) as i16,
            f7: u16_le(bytes, 38),
            f8: u16_le(bytes, 40),
            f9: u16_le(bytes, 42),
            shapes_index: bytes[44],
            u1: bytes[45],
            f10: u16_le(bytes, 46),
            f11: u16_le(bytes, 48),
            f12: u16_le(bytes, 50),
            f13: u16_le(bytes, 52),
        })
    }

    proof fn lemma_size_positive() {
    }

    fn size() -> usize {
        54
    }

    fn decode(bytes: &[u8]) -> Self {
        ObjectRaw {
            flags: read_u16_le(bytes, 0),
            facs_num: read_u16_le(bytes, 2),
            pnts_num: read_u16_le(bytes, 4),
            f1: bytes[6],
            morph_index: bytes[7],
            f2: read_u32_le(bytes, 8),
            coord_scale: read_u32_le(bytes, 12),
            facs_ptr: read_u32_le(bytes, 16),
            facs_ptr_end: read_u32_le(bytes, 20),
            pnts_ptr: read_u32_le(bytes, 24),
            pnts_ptr_end: read_u32_le(bytes, 28),
            f4: read_u16_le(bytes, 32) as i16,
            f5: read_u16_le(bytes, 34) as i16,
            f6: read_u16_le(bytes, 36) as i16,
            f7: read_u16_le(bytes, 38),
            f8: read_u16_le(bytes, 40),
            f9: read_u16_le(bytes, 42),
            shapes_index: bytes[44],
            u1: bytes[45],
            f10: read_u16_le(bytes, 46),
            f11: read_u16_le(bytes, 48),
            f12: read_u16_le(bytes, 50),
            f13: read_u16_le(bytes, 52),
        }
    }
}

/// A shape as its file holds it.
#[derive(Debug, Copy, Clone)]
pub struct Shape {
    pub x1: u8,
    pub y1: u8,
    pub x2: u8,
    pub y2: u8,
    pub unknown: [u8; 40],
    pub ptr: u32,
}

impl BinDeserializer for Shape {
    open spec fn spec_size() -> usize {
        48
    }

    open spec fn decodes(bytes: Seq<u8>, record: &Self) -> bool {
        &&& record.x1 == bytes[0]
        &&& record.y1 == bytes[1]
        &&& record.x2 == bytes[2]
        &&& record.y2 == bytes[3]
        &&& record.unknown@ == bytes.subrange(4, 44)
        &&& record.ptr == u32_le(bytes, 44)
    }

    proof fn lemma_size_positive() {
    }

    fn size() -> usize {
        48
    }

    fn decode(bytes: &[u8]) -> Self {
        Shape {
            x1: bytes[0],
            y1: bytes[1],
            x2: bytes[2],
            y2: bytes[3],
            unknown: read_bytes::<40>(bytes, 4),
            ptr: read_u32_le(bytes, 44),
        }
    }
}

/// A point as its file holds it.
#[derive(Debug, Copy, Clone)]
pub struct PointRaw {
    pub x: i16,
    pub y: i16,
    pub z: i16,
}

impl BinDeserializer for PointRaw {
    open spec fn spec_size() -> usize {
        6
    }

    open spec fn decodes(bytes: Seq<u8>, record: &Self) -> bool {
        *record == (PointRaw {
            x: u16_le(bytes, 0) as i16,
            y: u16_le(bytes, 2) as i16,
            z: u16_le(bytes, 4) as i16,
        })
    }

    proof fn lemma_size_positive() {
    }

    fn size() -> usize {
        6
    }

    fn decode(bytes: &[u8]) -> Self {
        PointRaw {
            x: read_u16_le(bytes, 0) as i16,
            y: read_u16_le(bytes, 2) as i16,
            z: read_u16_le(bytes, 4) as i16,
        }
    }
}

/// A face as its file holds it: up to four points of its object, each with
/// its place in the texture.
#[derive(Debug, Copy, Clone)]
pub struct FaceRaw {
    pub f0: u16,
    pub tex_index: i16,
    pub flags1: i16,
    pub num_points: u8,
    pub f11: u8,
    pub point_1_u: u32,
    pub point_1_v: u32,
    pub point_2_u: u32,
    pub point_2_v: u32,
    pub point_3_u: u32,
    pub point_3_v: u32,
    pub point_4_u: u32,
    pub point_4_v: u32,
    pub point_1: u16,
    pub point_2: u16,
    pub point_3: u16,
    pub point_4: u16,
    pub f6: u16,
    pub ff1: u16,
    pub ff2: u16,
    pub ff3: u16,
    pub ff4: u16,
    pub f8: u8,
    pub flags2: u8,
}

impl BinDeserializer for FaceRaw {
    open spec fn spec_size() -> usize {
        60
    }

    open spec fn decodes(bytes: Seq<u8>, record: &Self) -> bool {
        *record == (FaceRaw {
            f0: u16_le(bytes, 0),
            tex_index: u16_le(bytes, 2) as i16,
            flags1: u16_le(bytes, 4) as i16,
            num_points: bytes[6],
            f11: bytes[7],
            point_1_u: u32_le(bytes, 8),
            point_1_v: u32_le(bytes, 12),
            point_2_u: u32_le(bytes, 16),
            point_2_v: u32_le(bytes, 20),
            point_3_u: u32_le(bytes, 24),
            point_3_v: u32_le(bytes, 28),
            point_4_u: u32_le(bytes, 32),
            point_4_v: u32_le(bytes, 36),
            point_1: u16_le(bytes, 40),
            point_2: u16_le(bytes, 42),
            point_3: u16_le(bytes, 44),
            point_4: u16_le(bytes, 46),
            f6: u16_le(bytes, 48),
            ff1: u16_le(bytes, 50),
            ff2: u16_le(bytes, 52),
            ff3: u16_le(bytes, 54),
            ff4: u16_le(bytes, 56),
            f8: bytes[58],
            flags2: bytes[59],
        })
    }

    proof fn lemma_size_positive() {
    }

    fn size() -> usize {
        60
    }

    fn decode(bytes: &[u8]) -> Self {
        FaceRaw {
            f0: read_u16_le(bytes, 0),
            tex_index: read_u16_le(bytes, 2) as i16,
            flags1: read_u16_le(bytes, 4) as i16,
            num_points: bytes[6],
            f11: bytes[7],
            point_1_u: read_u32_le(bytes, 8),
            point_1_v: read_u32_le(bytes, 12),
            point_2_u: read_u32_le(bytes, 16),
            point_2_v: read_u32_le(bytes, 20),
            point_3_u: read_u32_le(bytes, 24),
            point_3_v: read_u32_le(bytes, 28),
            point_4_u: read_u32_le(bytes, 32),
            point_4_v: read_u32_le(bytes, 36),
            point_1: read_u16_le(bytes, 40),
            point_2: read_u16_le(bytes, 42),
            point_3: read_u16_le(bytes, 44),
            point_4: read_u16_le(bytes, 46),
            f6: read_u16_le(bytes, 48),
            ff1: read_u16_le(bytes, 50),
            ff2: read_u16_le(bytes, 52),
            ff3: read_u16_le(bytes, 54),
            ff4: read_u16_le(bytes, 56),
            f8: bytes[58],
            flags2: bytes[59],
        }
    }
}

/// A corner of a face in whole numbers: the point and its place in the
/// texture.
#[derive(Debug, Copy, Clone)]
pub struct FaceCorner {
    pub point: PointRaw,
    pub u: u32,
    pub v: u32,
}

/// A face with its points looked up. Of the four corners the first
/// `vertex_num` count; a corner that does not count is all zero.
#[derive(Debug, Copy, Clone)]
pub struct FacePoints {
    pub texture_index: i16,
    pub vertex_num: usize,
    pub vertex: [FaceCorner; 4],
}

/// The corner with every number zero.
pub open spec fn no_corner() -> FaceCorner {
    FaceCorner { point: PointRaw { x: 0, y: 0, z: 0 }, u: 0, v: 0 }
}

/// The face `f` with its points looked up in `points`. A face has three
/// corners or four; a fourth corner that the face does not use is zero.
pub open spec fn face_of(f: FaceRaw, points: Seq<PointRaw>) -> FacePoints {
    let vertex_num = if f.num_points < 4 {
        f.num_points as usize
    } else {
        4usize
    };
    let vertex = [
        FaceCorner { point: points[f.point_1 as int], u: f.point_1_u, v: f.point_1_v },
        FaceCorner { point: points[f.point_2 as int], u: f.point_2_u, v: f.point_2_v },
        FaceCorner { point: points[f.point_3 as int], u: f.point_3_u, v: f.point_3_v },
        if vertex_num == 4 {
            FaceCorner { point: points[f.point_4 as int], u: f.point_4_u, v: f.point_4_v }
        } else {
            no_corner()
        },
    ];
    FacePoints { texture_index: f.tex_index, vertex_num, vertex }
}

/// The points that the face asks for are there.
pub open spec fn face_ok(f: FaceRaw, points: Seq<PointRaw>) -> bool {
    &&& f.point_1 < points.len()
    &&& f.point_2 < points.len()
    &&& f.point_3 < points.len()
    &&& f.num_points >= 4 ==> f.point_4 < points.len()
}

/// An object with its own faces and points.
#[derive(Debug)]
pub struct Object3D {
    pub object: ObjectRaw,
    pub faces: Vec<FaceRaw>,
    pub points: Vec<PointRaw>,
}

/// The records from number `from` up to but without number `to`, numbers
/// counted from 1.
pub open spec fn numbered<T>(all: Seq<T>, from: int, to: int) -> Seq<T> {
    if from < to {
        all.subrange(from - 1, to - 1)
    } else {
        Seq::empty()
    }
}

/// The records from number `from` up to but without number `to` are there.
pub open spec fn numbered_ok<T>(all: Seq<T>, from: int, to: int) -> bool {
    from < to ==> 1 <= from && to - 1 <= all.len()
}

/// The objects that have faces, in the order of the file.
pub open spec fn with_faces(objects: Seq<ObjectRaw>) -> Seq<ObjectRaw> {
    objects.filter(|o: ObjectRaw| o.facs_num > 0)
}

fn copy_numbered<T: Copy>(all: &[T], from: u32, to: u32) -> (r: Vec<T>)
    requires
        numbered_ok(all@, from as int, to as int),
    ensures
        r@ == numbered(all@, from as int, to as int),
{
    let mut r: Vec<T> = Vec::new();
    let mut i: u32 = from;
    if from >= to {
        return r;
    }
    while i < to
        invariant
            from <= i <= to,
            1 <= from,
            to - 1 <= all@.len(),
            r@ == all@.subrange(from - 1, i - 1),
        decreases to - i,
    {
        r.push(all[i as usize - 1]);
        assert(r@ =~= all@.subrange(from - 1, i as int));
        i += 1;
    }
    r
}

impl Object3D {
    /// The object with the faces and the points that it points at.
    pub fn create(object: &ObjectRaw, faces: &[FaceRaw], points: &[PointRaw]) -> (r: Self)
        requires
            numbered_ok(points@, object.pnts_ptr as int, object.pnts_ptr_end as int),
            numbered_ok(faces@, object.facs_ptr as int, object.facs_ptr_end as int),
        ensures
            r.object == *object,
            r.points@ == numbered(points@, object.pnts_ptr as int, object.pnts_ptr_end as int),
            r.faces@ == numbered(faces@, object.facs_ptr as int, object.facs_ptr_end as int),
    {
        Object3D {
            object: *object,
            points: copy_numbered(points, object.pnts_ptr, object.pnts_ptr_end),
            faces: copy_numbered(faces, object.facs_ptr, object.facs_ptr_end),
        }
    }

    /// The objects that have faces, each with its faces and points.
    pub fn create_objects(objects: &[ObjectRaw], faces: &[FaceRaw], points: &[PointRaw]) -> (r: Vec<
        Self,
    >)
        requires
            forall|k: int|
                0 <= k < objects@.len() && (#[trigger] objects@[k]).facs_num > 0 ==> numbered_ok(
                    points@,
                    objects@[k].pnts_ptr as int,
                    objects@[k].pnts_ptr_end as int,
                ) && numbered_ok(
                    faces@,
                    objects@[k].facs_ptr as int,
                    objects@[k].facs_ptr_end as int,
                ),
        ensures
            r.len() == with_faces(objects@).len(),
            forall|k: int|
                0 <= k < r.len() ==> {
                    let o = with_faces(objects@)[k];
                    &&& (#[trigger] r[k]).object == o
                    &&& r[k].points@ == numbered(points@, o.pnts_ptr as int, o.pnts_ptr_end as int)
                    &&& r[k].faces@ == numbered(faces@, o.facs_ptr as int, o.facs_ptr_end as int)
                },
    {
        let mut objects_3d: Vec<Self> = Vec::new();
        let mut n: usize = 0;
        let ghost pred = |o: ObjectRaw| o.facs_num > 0;
        proof {
            reveal(Seq::filter);
            assert(objects@.take(0).filter(pred) =~= Seq::empty());
        }
        while n < objects.len()
            invariant
                n <= objects.len(),
                pred == |o: ObjectRaw| o.facs_num > 0,
                forall|k: int|
                    0 <= k < objects@.len() && (#[trigger] objects@[k]).facs_num > 0
                        ==> numbered_ok(
                        points@,
                        objects@[k].pnts_ptr as int,
                        objects@[k].pnts_ptr_end as int,
                    ) && numbered_ok(
                        faces@,
                        objects@[k].facs_ptr as int,
                        objects@[k].facs_ptr_end as int,
                    ),
                objects_3d.len() == objects@.take(n as int).filter(pred).len(),
                forall|k: int|
                    0 <= k < objects_3d.len() ==> {
                        let o = objects@.take(n as int).filter(pred)[k];
                        &&& (#[trigger] objects_3d[k]).object == o
                        &&& objects_3d[k].points@ == numbered(
                            points@,
                            o.pnts_ptr as int,
                            o.pnts_ptr_end as int,
                        )
                        &&& objects_3d[k].faces@ == numbered(
                            faces@,
                            o.facs_ptr as int,
                            o.facs_ptr_end as int,
                        )
                    },
            decreases objects.len() - n,
        {
            let object = &objects[n];
            proof {
                reveal(Seq::filter);
                assert(objects@.take(n + 1).drop_last() =~= objects@.take(n as int));
                assert(objects@.take(n + 1).last() == objects@[n as int]);
            }
            if object.facs_num > 0 {
                objects_3d.push(Self::create(object, faces, points));
            }
            n += 1;
        }
        proof {
            assert(objects@.take(objects@.len() as int) =~= objects@);
        }
        objects_3d
    }

    /// Tells whether every object that has faces points at faces and points
    /// that are there.
    pub fn records_fit(objects: &[ObjectRaw], faces: &[FaceRaw], points: &[PointRaw]) -> (b: bool)
        ensures
            b == forall|k: int|
                0 <= k < objects@.len() && (#[trigger] objects@[k]).facs_num > 0 ==> numbered_ok(
                    points@,
                    objects@[k].pnts_ptr as int,
                    objects@[k].pnts_ptr_end as int,
                ) && numbered_ok(
                    faces@,
                    objects@[k].facs_ptr as int,
                    objects@[k].facs_ptr_end as int,
                ),
    {
        let mut n: usize = 0;
        while n < objects.len()
            invariant
                n <= objects.len(),
                forall|k: int|
                    0 <= k < n && (#[trigger] objects@[k]).facs_num > 0 ==> numbered_ok(
                        points@,
                        objects@[k].pnts_ptr as int,
                        objects@[k].pnts_ptr_end as int,
                    ) && numbered_ok(
                        faces@,
                        objects@[k].facs_ptr as int,
                        objects@[k].facs_ptr_end as int,
                    ),
            decreases objects.len() - n,
        {
            let o = &objects[n];
            if o.facs_num > 0 {
                let points_ok = o.pnts_ptr >= o.pnts_ptr_end || (o.pnts_ptr >= 1 && (
                o.pnts_ptr_end as u64) - 1 <= points.len() as u64);
                let faces_ok = o.facs_ptr >= o.facs_ptr_end || (o.facs_ptr >= 1 && (
                o.facs_ptr_end as u64) - 1 <= faces.len() as u64);
                if !(points_ok && faces_ok) {
                    return false;
                }
            }
            n += 1;
        }
        true
    }

    /// Walks the faces of the object.
    pub fn iter_face(&self) -> (it: FaceIter<'_>)
        ensures
            it.faces@ == self.faces@,
            it.points@ == self.points@,
            it.next == 0,
    {
        FaceIter { faces: self.faces.as_slice(), points: self.points.as_slice(), next: 0 }
    }

    /// What the coordinates of the object are scaled by.
    pub fn coord_scale(&self) -> (s: u32)
        ensures
            s == self.object.coord_scale,
    {
        self.object.coord_scale
    }
}

/// A walk over the faces of an object.
pub struct FaceIter<'a> {
    pub faces: &'a [FaceRaw],
    pub points: &'a [PointRaw],
    /// How many faces are handed out.
    pub next: usize,
}

impl<'a> FaceIter<'a> {
    /// Hands out the next face with its points looked up, or says that the
    /// walk is over.
    pub fn next(&mut self) -> (r: Option<FacePoints>)
        requires
            old(self).next < old(self).faces@.len() ==> face_ok(
                old(self).faces@[old(self).next as int],
                old(self).points@,
            ),
        ensures
            final(self).faces == old(self).faces,
            final(self).points == old(self).points,
            old(self).next >= old(self).faces@.len() ==> r is None && final(self).next == old(
                self,
            ).next,
            old(self).next < old(self).faces@.len() ==> final(self).next == old(self).next + 1
                && r is Some && r->Some_0.texture_index == face_of(
                old(self).faces@[old(self).next as int],
                old(self).points@,
            ).texture_index && r->Some_0.vertex_num == face_of(
                old(self).faces@[old(self).next as int],
                old(self).points@,
            ).vertex_num && r->Some_0.vertex@ == face_of(
                old(self).faces@[old(self).next as int],
                old(self).points@,
            ).vertex@,
    {
        if self.next >= self.faces.len() {
            return None;
        }
        let f = &self.faces[self.next];
        self.next += 1;
        let num_points: usize = if (f.num_points as usize) < 4 {
            f.num_points as usize
        } else {
            4
        };
        let blank = FaceCorner { point: PointRaw { x: 0, y: 0, z: 0 }, u: 0, v: 0 };
        let fourth = if num_points == 4 {
            FaceCorner { point: self.points[f.point_4 as usize], u: f.point_4_u, v: f.point_4_v }
        } else {
            blank
        };
        let vertex = [
            FaceCorner { point: self.points[f.point_1 as usize], u: f.point_1_u, v: f.point_1_v },
            FaceCorner { point: self.points[f.point_2 as usize], u: f.point_2_u, v: f.point_2_v },
            FaceCorner { point: self.points[f.point_3 as usize], u: f.point_3_u, v: f.point_3_v },
            fourth,
        ];
        let face = FacePoints { texture_index: f.tex_index, vertex_num: num_points, vertex };
        proof {
            let expected = face_of(*f, self.points@);
            assert(face.vertex@ =~= expected.vertex@);
        }
        Some(face)
    }
}


impl<'a> FaceIter<'a> {
    /// Tells whether the walk is over or the points of the next face are
    /// there.
    pub fn face_ready(&self) -> (b: bool)
        ensures
            b == (self.next < self.faces@.len() ==> face_ok(
                self.faces@[self.next as int],
                self.points@,
            )),
    {
        if self.next >= self.faces.len() {
            return true;
        }
        let f = &self.faces[self.next];
        let n = self.points.len();
        (f.point_1 as usize) < n && (f.point_2 as usize) < n && (f.point_3 as usize) < n && (
        f.num_points < 4 || (f.point_4 as usize) < n)
    }
}


/// The corners of a face in the order in which its triangles are drawn: a
/// face of three corners is one triangle, any other face is two triangles
/// that share the first and the third corner.
pub open spec fn drawn_corners(face: FacePoints) -> Seq<FaceCorner> {
    if face.vertex_num == 3 {
        seq![face.vertex@[0], face.vertex@[1], face.vertex@[2]]
    } else {
        seq![
            face.vertex@[0],
            face.vertex@[1],
            face.vertex@[2],
            face.vertex@[2],
            face.vertex@[3],
            face.vertex@[0],
        ]
    }
}

impl FacePoints {
    /// Lists the corners of the face in the order in which its triangles are
    /// drawn.
    pub fn corners(&self) -> (list: Vec<FaceCorner>)
        ensures
            list@ == drawn_corners(*self),
    {
        let mut list: Vec<FaceCorner> = Vec::new();
        list.push(self.vertex[0]);
        list.push(self.vertex[1]);
        list.push(self.vertex[2]);
        if self.vertex_num != 3 {
            list.push(self.vertex[2]);
            list.push(self.vertex[3]);
            list.push(self.vertex[0]);
        }
        assert(list@ =~= drawn_corners(*self));
        list
    }
}

} // verus!
