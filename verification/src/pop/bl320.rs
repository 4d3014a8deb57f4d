//! Tile sets: files of square textures of one size, one after the other.

use vstd::prelude::*;
use crate::pop::types::{record_bytes, AllocatorEqual, ByteReader, ImageStorage, ImageStorageSource};

verus! {

/// The side of a texture of the large tile set.
pub const BL320_SIDE: usize = 256;

/// `post` is the source `pre` after it was asked for room for one texture
/// and, if it had room, the texture was written there.
pub open spec fn texture_stored<P: ImageStorageSource>(
    pre: &P,
    post: &P,
    width: usize,
    height: usize,
    texture: Seq<u8>,
) -> bool {
    if pre.has_room(width, height) {
        exists|given: P::StorageType, written: P::StorageType|
            #![trigger given.image_set(&written, texture)]
            pre.storage_given(width, height, &given) && given.image_set(&written, texture)
                && pre.storage_returned(width, height, post, &written)
    } else {
        pre.storage_refused(width, height, post)
    }
}

/// `post` is the source `pre` after the first `count` textures of `data`
/// were stored in it, one after the other.
pub open spec fn textures_stored<P: ImageStorageSource>(
    pre: &P,
    post: &P,
    width: usize,
    height: usize,
    data: Seq<u8>,
    count: nat,
) -> bool
    decreases count,
{
    if count == 0 {
        *post == *pre
    } else {
        exists|mid: P|
            textures_stored(pre, &mid, width, height, data, (count - 1) as nat)
                && #[trigger] texture_stored(
                &mid,
                post,
                width,
                height,
                record_bytes(data, width * height, count - 1),
            )
    }
}

/// The source can be asked for room for each of the first `count` textures
/// of `data`, and what it hands out can take the texture.
pub open spec fn textures_fit<P: ImageStorageSource>(
    pre: &P,
    width: usize,
    height: usize,
    data: Seq<u8>,
    count: nat,
) -> bool {
    forall|k: nat, mid: P|
        k < count && #[trigger] textures_stored(pre, &mid, width, height, data, k) ==> {
            &&& mid.can_get(width, height)
            &&& forall|given: P::StorageType| #[trigger]
                mid.storage_given(width, height, &given) ==> given.can_set_image(
                    record_bytes(data, width * height, k as int),
                )
        }
}

/// Stores the textures that the reader holds in full in `p`, one after the
/// other.
fn read_textures_seq<P: ImageStorageSource>(
    info: (usize, usize),
    reader: &mut ByteReader,
    p: &mut P,
    size: usize,
)
    requires
        old(reader).wf(),
        size == info.0 * info.1,
        size > 0,
        textures_fit(
            old(p),
            info.0,
            info.1,
            old(reader).rest(),
            (old(reader).rest().len() / (size as nat)) as nat,
        ),
    ensures
        final(reader).wf(),
        final(reader).data == old(reader).data,
        textures_stored(
            old(p),
            final(p),
            info.0,
            info.1,
            old(reader).rest(),
            (old(reader).rest().len() / (size as nat)) as nat,
        ),
{
    let ghost all = reader.rest();
    let ghost total = (all.len() / (size as nat)) as nat;
    let ghost mut count: nat = 0;
    proof {
        assert(0 * size == 0) by (nonlinear_arith);
        assert(total * size <= all.len()) by (nonlinear_arith)
            requires
                total == all.len() / (size as nat),
                size > 0,
        ;
    }
    loop
        invariant
            reader.wf(),
            reader.data == old(reader).data,
            all == old(reader).rest(),
            size == info.0 * info.1,
            size > 0,
            total == all.len() / (size as nat),
            count <= total,
            reader.pos == old(reader).pos + count * size,
            textures_fit(old(p), info.0, info.1, all, total),
            textures_stored(old(p), p, info.0, info.1, all, count),
        ensures
            reader.wf(),
            reader.data == old(reader).data,
            textures_stored(old(p), p, info.0, info.1, all, total),
        decreases reader.data@.len() - reader.pos,
    {
        let ghost before_reader = *reader;
        let data = match reader.read_exact(size) {
            Some(d) => d,
            None => {
                proof {
                    assert(count == total) by (nonlinear_arith)
                        requires
                            count <= total,
                            total == all.len() / (size as nat),
                            all.len() - count * size < size,
                            size > 0,
                    ;
                }
                break ;
            },
        };
        proof {
            assert((count + 1) * size == count * size + size) by (nonlinear_arith);
            assert(count < total) by (nonlinear_arith)
                requires
                    total == all.len() / (size as nat),
                    count * size + size <= all.len(),
                    size > 0,
            ;
            assert(data@ =~= record_bytes(all, info.0 * info.1, count as int));
        }
        let ghost before = *p;
        match p.get_storage(&info) {
            Some(s) => {
                let ghost given = *s;
                s.set_image(data);
                proof {
                    assert(given.image_set(s, data@));
                }
            },
            None => {},
        }
        proof {
            assert(texture_stored(
                &before,
                p,
                info.0,
                info.1,
                record_bytes(all, info.0 * info.1, count as int),
            ));
            count = count + 1;
            assert(textures_stored(old(p), &before, info.0, info.1, all, (count - 1) as nat));
        }
    }
}

/// Reads the textures of `width` by `height` pixels that the reader holds,
/// into a source that `allocator` makes for as many textures as `total_size`
/// bytes hold in full.
pub fn read_textures<P: ImageStorageSource, A: AllocatorEqual<P>>(
    allocator: &A,
    reader: &mut ByteReader,
    total_size: usize,
    width: usize,
    height: usize,
) -> (p: P)
    requires
        old(reader).wf(),
        0 < width * height <= usize::MAX,
        allocator.can_alloc_equal(width, height, (total_size / ((width * height) as usize)) as usize),
        forall|made: P| #[trigger]
            allocator.equal_allocated(
                width,
                height,
                (total_size / ((width * height) as usize)) as usize,
                &made,
            ) ==> textures_fit(
                &made,
                width,
                height,
                old(reader).rest(),
                (old(reader).rest().len() / ((width * height) as nat)) as nat,
            ),
    ensures
        final(reader).wf(),
        final(reader).data == old(reader).data,
        exists|made: P| #[trigger]
            allocator.equal_allocated(
                width,
                height,
                (total_size / ((width * height) as usize)) as usize,
                &made,
            ) && textures_stored(
                &made,
                &p,
                width,
                height,
                old(reader).rest(),
                (old(reader).rest().len() / ((width * height) as nat)) as nat,
            ),
{
    let texture_size = width * height;
    let texture_num = total_size / texture_size;
    let info = (width, height);
    let mut p = allocator.alloc_equal(&info, texture_num);
    let ghost made = p;
    read_textures_seq(info, reader, &mut p, texture_size);
    p
}

/// Reads the large tile set from the contents of its file: textures of 256
/// by 256 pixels.
pub fn read_bl320<P: ImageStorageSource, A: AllocatorEqual<P>>(allocator: &A, file: &[u8]) -> (p: P)
    requires
        allocator.can_alloc_equal(
            BL320_SIDE,
            BL320_SIDE,
            (file@.len() / ((BL320_SIDE * BL320_SIDE) as nat)) as usize,
        ),
        forall|made: P| #[trigger]
            allocator.equal_allocated(
                BL320_SIDE,
                BL320_SIDE,
                (file@.len() / ((BL320_SIDE * BL320_SIDE) as nat)) as usize,
                &made,
            ) ==> textures_fit(
                &made,
                BL320_SIDE,
                BL320_SIDE,
                file@,
                (file@.len() / ((BL320_SIDE * BL320_SIDE) as nat)) as nat,
            ),
    ensures
        exists|made: P| #[trigger]
            allocator.equal_allocated(
                BL320_SIDE,
                BL320_SIDE,
                (file@.len() / ((BL320_SIDE * BL320_SIDE) as nat)) as usize,
                &made,
            ) && textures_stored(
                &made,
                &p,
                BL320_SIDE,
                BL320_SIDE,
                file@,
                (file@.len() / ((BL320_SIDE * BL320_SIDE) as nat)) as nat,
            ),
{
    let mut reader = ByteReader::new(file);
    let file_size = file.len();
    let width: usize = 256;
    let height: usize = 256;
    assert(reader.rest() =~= file@);
    read_textures(allocator, &mut reader, file_size, width, height)
}

/// Reads the small tile set from the contents of its file: textures of
/// `width` by `height` pixels.
pub fn read_bl160<P: ImageStorageSource, A: AllocatorEqual<P>>(
    width: usize,
    height: usize,
    allocator: &A,
    file: &[u8],
) -> (p: P)
    requires
        0 < width * height <= usize::MAX,
        allocator.can_alloc_equal(
            width,
            height,
            (file@.len() / ((width * height) as nat)) as usize,
        ),
        forall|made: P| #[trigger]
            allocator.equal_allocated(
                width,
                height,
                (file@.len() / ((width * height) as nat)) as usize,
                &made,
            ) ==> textures_fit(
                &made,
                width,
                height,
                file@,
                (file@.len() / ((width * height) as nat)) as nat,
            ),
    ensures
        exists|made: P| #[trigger]
            allocator.equal_allocated(
                width,
                height,
                (file@.len() / ((width * height) as nat)) as usize,
                &made,
            ) && textures_stored(
                &made,
                &p,
                width,
                height,
                file@,
                (file@.len() / ((width * height) as nat)) as nat,
            ),
{
    let mut reader = ByteReader::new(file);
    let file_size = file.len();
    assert(reader.rest() =~= file@);
    read_textures(allocator, &mut reader, file_size, width, height)
}


/// The number of bytes of a texture of the large tile set.
pub const BL320_TEXTURE: usize = 0x1_0000;

/// The palette holds four bytes for every palette index of the first
/// `count` bytes of the file.
pub open spec fn palette_covers(pal: Seq<u8>, file: Seq<u8>, count: int) -> bool {
    forall|k: int| 0 <= k < count ==> (#[trigger] file[k]) * 4 + 4 <= pal.len()
}

/// The large tile set in colours: the textures that the file holds in full,
/// one below the other, each pixel as the four bytes that the palette has
/// for its index. Gives the width and the height of the image with its
/// bytes.
pub fn make_bl320_texture_rgba(file: &[u8], pal: &[u8]) -> (r: (usize, usize, Vec<u8>))
    requires
        (file@.len() / (BL320_TEXTURE as nat)) * BL320_TEXTURE * 4 <= usize::MAX,
        palette_covers(pal@, file@, (file@.len() / (BL320_TEXTURE as nat)) * BL320_TEXTURE),
    ensures
        r.0 == BL320_SIDE,
        r.1 == BL320_SIDE * (file@.len() / (BL320_TEXTURE as nat)),
        r.2.len() == 4 * ((file@.len() / (BL320_TEXTURE as nat)) * BL320_TEXTURE),
        forall|k: int, c: int|
            0 <= k < (file@.len() / (BL320_TEXTURE as nat)) * BL320_TEXTURE && 0 <= c < 4
                ==> #[trigger] r.2[crate::pop::landscape::rgba_at(k, c)] == pal@[file@[k] * 4 + c],
{
    let texture_num: usize = file.len() / 0x1_0000;
    let pixels: usize = texture_num * 0x1_0000;
    let pal_len = pal.len();
    let mut data: Vec<u8> = vec![0u8; 4 * pixels];
    let mut k: usize = 0;
    while k < pixels
        invariant
            k <= pixels,
            pixels == (file@.len() / (BL320_TEXTURE as nat)) * BL320_TEXTURE,
            pixels <= file@.len(),
            4 * pixels <= usize::MAX,
            pal_len == pal@.len(),
            palette_covers(pal@, file@, pixels as int),
            data.len() == 4 * pixels,
            forall|m: int, c: int|
                0 <= m < k && 0 <= c < 4 ==> #[trigger] data[crate::pop::landscape::rgba_at(m, c)]
                    == pal@[file@[m] * 4 + c],
        decreases pixels - k,
    {
        let pal_index = file[k] as usize * 4;
        let at = 4 * k;
        let ghost before = data@;
        data[at] = pal[pal_index];
        data[at + 1] = pal[pal_index + 1];
        data[at + 2] = pal[pal_index + 2];
        data[at + 3] = pal[pal_index + 3];
        proof {
            assert forall|m: int, c: int| 0 <= m < k + 1 && 0 <= c < 4 implies #[trigger] data[crate::pop::landscape::rgba_at(
                m,
                c,
            )] == pal@[file@[m] * 4 + c] by {
                if m < k {
                    assert(data[crate::pop::landscape::rgba_at(m, c)]
                        == before[crate::pop::landscape::rgba_at(m, c)]);
                }
            }
        }
        k += 1;
    }
    (256, 256 * texture_num, data)
}


/// Tells whether the palette holds four bytes for every palette index of
/// the textures that the file holds in full.
pub fn palette_holds(pal: &[u8], file: &[u8]) -> (b: bool)
    ensures
        b == palette_covers(pal@, file@, (file@.len() / (BL320_TEXTURE as nat)) * BL320_TEXTURE),
{
    let pixels: usize = (file.len() / 0x1_0000) * 0x1_0000;
    let len = pal.len();
    let mut k: usize = 0;
    while k < pixels
        invariant
            k <= pixels,
            pixels == (file@.len() / (BL320_TEXTURE as nat)) * BL320_TEXTURE,
            pixels <= file@.len(),
            len == pal@.len(),
            palette_covers(pal@, file@, k as int),
        decreases pixels - k,
    {
        if file[k] as usize * 4 + 4 > len {
            assert(!(file@[k as int] * 4 + 4 <= pal@.len()));
            return false;
        }
        k += 1;
    }
    true
}

} // verus!
