//! Sprite containers: a header that lists the sprites and, for each sprite,
//! its lines packed as runs of pixels and gaps.
//!
//! A line of a sprite is a list of bytes that ends with 0. A byte above 0
//! says how many pixels follow it; a byte below 0, read as signed, says how
//! many pixels are left out.

use vstd::prelude::*;
use crate::pop::types::{
    BinDeserializer,
    read_u16_le,
    read_u32_le,
    u16_le,
    u32_le,
    ByteReader,
    Image,
    ImageInfo,
    ImageStorage,
    ImageStorageSource,
};

verus! {

/// What a container starts with: the letters PSFB, low byte first.
pub const PSFB_MARKER: u32 = 0x42465350;

/// A sprite as the header of its container lists it.
pub struct SpritePSFB {
    pub index: usize,
    /// Where the lines of the sprite start in the file.
    pub offset: usize,
    pub width: u16,
    pub height: u16,
}

/// The byte at `at` as a signed number.
pub open spec fn signed_at(data: Seq<u8>, at: int) -> int {
    data[at] as i8 as int
}

/// The run of pixels that the byte at `at` counts.
pub open spec fn run_at(data: Seq<u8>, at: int) -> Seq<u8> {
    data.subrange(at + 1, at + 1 + signed_at(data, at))
}

/// The lines of a sprite of `height` lines can be read from byte `at` on,
/// when line `y` is read up to column `x`: every byte that is asked for is
/// there, no gap is 128 wide, and no column lies beyond what a machine can
/// count.
pub open spec fn sprite_ok(data: Seq<u8>, height: int, at: int, x: int, y: int) -> bool
    decreases data.len() - at,
{
    if y >= height {
        true
    } else if !(0 <= at < data.len()) {
        false
    } else if data[at] == 0 {
        sprite_ok(data, height, at + 1, 0, y + 1)
    } else if signed_at(data, at) < 0 {
        &&& signed_at(data, at) != -128
        &&& x - signed_at(data, at) <= usize::MAX
        &&& sprite_ok(data, height, at + 1, x - signed_at(data, at), y)
    } else {
        &&& at + signed_at(data, at) < data.len()
        &&& x + signed_at(data, at) <= usize::MAX
        &&& sprite_ok(data, height, at + 1 + signed_at(data, at), x + signed_at(data, at), y)
    }
}

/// The storage has room for every run of the rest of a sprite.
pub open spec fn can_draw<S: ImageStorage>(
    pre: &S,
    data: Seq<u8>,
    height: int,
    at: int,
    x: int,
    y: int,
) -> bool
    decreases data.len() - at,
{
    if y >= height || !(0 <= at < data.len()) {
        true
    } else if data[at] == 0 {
        can_draw(pre, data, height, at + 1, 0, y + 1)
    } else if signed_at(data, at) < 0 {
        can_draw(pre, data, height, at + 1, x - signed_at(data, at), y)
    } else if at + signed_at(data, at) >= data.len() {
        true
    } else {
        &&& pre.can_set_line(x as usize, y as usize, run_at(data, at))
        &&& forall|mid: S|
            can_draw(&mid, data, height, at + 1 + signed_at(data, at), x + signed_at(data, at), y)
                || !#[trigger] pre.line_set(&mid, x as usize, y as usize, run_at(data, at))
    }
}

/// `post` is the storage `pre` after the rest of a sprite was written to
/// it: each run of pixels as a line at its column and row.
pub open spec fn drawn<S: ImageStorage>(
    pre: &S,
    post: &S,
    data: Seq<u8>,
    height: int,
    at: int,
    x: int,
    y: int,
) -> bool
    decreases data.len() - at,
{
    if y >= height || !(0 <= at < data.len()) {
        *post == *pre
    } else if data[at] == 0 {
        drawn(pre, post, data, height, at + 1, 0, y + 1)
    } else if signed_at(data, at) < 0 {
        drawn(pre, post, data, height, at + 1, x - signed_at(data, at), y)
    } else if at + signed_at(data, at) >= data.len() {
        *post == *pre
    } else {
        exists|mid: S|
            drawn(&mid, post, data, height, at + 1 + signed_at(data, at), x + signed_at(data, at), y)
                && #[trigger] pre.line_set(&mid, x as usize, y as usize, run_at(data, at))
    }
}

impl SpritePSFB {
    /// Unpacks the lines of the sprite from `data_in` and writes them to
    /// `s`.
    pub fn to_storage<S: ImageStorage>(&self, s: &mut S, data_in: &[u8])
        requires
            sprite_ok(data_in@, self.height as int, 0, 0, 0),
            can_draw(old(s), data_in@, self.height as int, 0, 0, 0),
        ensures
            drawn(old(s), final(s), data_in@, self.height as int, 0, 0, 0),
    {
        let height = self.height as usize;
        let mut source_index: usize = 0;
        let mut height_index: usize = 0;
        let ghost data = data_in@;
        while height_index < height && data_in[source_index] == 0
            invariant
                height == self.height,
                data == data_in@,
                *s == *old(s),
                sprite_ok(data, height as int, source_index as int, 0, height_index as int),
                can_draw(s, data, height as int, source_index as int, 0, height_index as int),
                forall|post: S| #[trigger]
                    drawn(s, &post, data, height as int, source_index as int, 0, height_index as int)
                        ==> drawn(old(s), &post, data, height as int, 0, 0, 0),
            decreases height - height_index,
        {
            proof {
                let at = source_index as int;
                let y = height_index as int;
                assert forall|post: S| #[trigger]
                    drawn(s, &post, data, height as int, at + 1, 0, y + 1) implies drawn(
                    old(s),
                    &post,
                    data,
                    height as int,
                    0,
                    0,
                    0,
                ) by {
                    assert(drawn(s, &post, data, height as int, at, 0, y));
                }
            }
            source_index += 1;
            height_index += 1;
        }
        while height_index < height
            invariant
                height == self.height,
                data == data_in@,
                sprite_ok(data, height as int, source_index as int, 0, height_index as int),
                can_draw(s, data, height as int, source_index as int, 0, height_index as int),
                forall|post: S| #[trigger]
                    drawn(s, &post, data, height as int, source_index as int, 0, height_index as int)
                        ==> drawn(old(s), &post, data, height as int, 0, 0, 0),
            decreases height - height_index,
        {
            let mut dest_index: usize = 0;
            while data_in[source_index] != 0
                invariant
                    height == self.height,
                    data == data_in@,
                    height_index < height,
                    source_index < data.len(),
                    sprite_ok(
                        data,
                        height as int,
                        source_index as int,
                        dest_index as int,
                        height_index as int,
                    ),
                    can_draw(
                        s,
                        data,
                        height as int,
                        source_index as int,
                        dest_index as int,
                        height_index as int,
                    ),
                    forall|post: S| #[trigger]
                        drawn(
                            s,
                            &post,
                            data,
                            height as int,
                            source_index as int,
                            dest_index as int,
                            height_index as int,
                        ) ==> drawn(old(s), &post, data, height as int, 0, 0, 0),
                decreases data.len() - source_index,
            {
                let byte = data_in[source_index];
                let val: i8 = byte as i8;
                assert(val != 0) by (bit_vector)
                    requires
                        byte != 0,
                        val == byte as i8,
                ;
                let ghost at = source_index as int;
                let ghost x = dest_index as int;
                let ghost y = height_index as int;
                let ghost before = *s;
                if val <= 0 {
                    dest_index += (-val) as usize;
                    proof {
                        assert forall|post: S| #[trigger]
                            drawn(s, &post, data, height as int, at + 1, x - val, y) implies drawn(
                            old(s),
                            &post,
                            data,
                            height as int,
                            0,
                            0,
                            0,
                        ) by {
                            assert(drawn(s, &post, data, height as int, at, x, y));
                        }
                    }
                } else {
                    let val = val as usize;
                    let line = {
                        let line_start = source_index + 1;
                        let line_end = source_index + val;
                        &data_in[line_start..line_end + 1]
                    };
                    assert(line@ == run_at(data, at));
                    s.set_line(dest_index, height_index, line);
                    proof {
                        assert(before.line_set(s, x as usize, y as usize, run_at(data, at)));
                        assert forall|post: S| #[trigger]
                            drawn(
                                s,
                                &post,
                                data,
                                height as int,
                                at + 1 + val,
                                x + val,
                                y,
                            ) implies drawn(old(s), &post, data, height as int, 0, 0, 0) by {
                            assert(drawn(&before, &post, data, height as int, at, x, y));
                        }
                    }
                    dest_index += val;
                    source_index += val;
                }
                source_index += 1;
                proof {
                    // The next byte is there: the line is not at its end.
                    assert(sprite_ok(
                        data,
                        height as int,
                        source_index as int,
                        dest_index as int,
                        y,
                    ));
                }
            }
            proof {
                let at = source_index as int;
                let x = dest_index as int;
                let y = height_index as int;
                assert forall|post: S| #[trigger]
                    drawn(s, &post, data, height as int, at + 1, 0, y + 1) implies drawn(
                    old(s),
                    &post,
                    data,
                    height as int,
                    0,
                    0,
                    0,
                ) by {
                    assert(drawn(s, &post, data, height as int, at, x, y));
                }
            }
            source_index += 1;
            height_index += 1;
        }
        proof {
            assert(drawn(
                s,
                s,
                data,
                height as int,
                source_index as int,
                0,
                height_index as int,
            ));
        }
    }
}

impl ImageInfo for SpritePSFB {
    open spec fn spec_width(&self) -> usize {
        self.width as usize
    }

    open spec fn spec_height(&self) -> usize {
        self.height as usize
    }

    fn width(&self) -> usize {
        self.width as usize
    }

    fn height(&self) -> usize {
        self.height as usize
    }
}

impl BinDeserializer for SpritePSFB {
    open spec fn spec_size() -> usize {
        8
    }

    /// The entry of a header: width, height and offset. Its place in the
    /// container is not among the bytes and is left 0.
    open spec fn decodes(bytes: Seq<u8>, record: &Self) -> bool {
        *record == (SpritePSFB {
            index: 0,
            offset: u32_le(bytes, 4) as usize,
            width: u16_le(bytes, 0),
            height: u16_le(bytes, 2),
        })
    }

    proof fn lemma_size_positive() {
    }

    fn size() -> usize {
        8
    }

    fn decode(bytes: &[u8]) -> Self {
        SpritePSFB {
            index: 0,
            offset: read_u32_le(bytes, 4) as usize,
            width: read_u16_le(bytes, 0),
            height: read_u16_le(bytes, 2),
        }
    }
}

/// Entry `k` of the header that `bytes` start with.
pub open spec fn header_entry(bytes: Seq<u8>, k: int) -> SpritePSFB {
    SpritePSFB {
        index: k as usize,
        offset: u32_le(bytes, 8 + 8 * k + 4) as usize,
        width: u16_le(bytes, 8 + 8 * k),
        height: u16_le(bytes, 8 + 8 * k + 2),
    }
}

/// A container of sprites.
pub struct ContainerPSFB {
    header_size: usize,
    sprites: Vec<SpritePSFB>,
    data: Vec<u8>,
}

impl ContainerPSFB {
    /// The number of bytes of the header.
    pub closed spec fn spec_header_size(&self) -> usize {
        self.header_size
    }

    /// The sprites that the header lists.
    pub closed spec fn spec_sprites(&self) -> Seq<SpritePSFB> {
        self.sprites@
    }

    /// The bytes behind the header.
    pub closed spec fn spec_data(&self) -> Seq<u8> {
        self.data@
    }

    /// The lines of sprite `index`: what the file holds from the sprite's
    /// offset on.
    pub open spec fn sprite_data(&self, index: int) -> Seq<u8> {
        self.spec_data().subrange(
            self.spec_sprites()[index].offset - self.spec_header_size(),
            self.spec_data().len() as int,
        )
    }

    /// Sprite `index` starts behind the header and inside the file, and its
    /// lines can be read.
    pub open spec fn sprite_readable(&self, index: int) -> bool {
        let s = self.spec_sprites()[index];
        &&& self.spec_header_size() <= s.offset
        &&& s.offset - self.spec_header_size() <= self.spec_data().len()
        &&& sprite_ok(self.sprite_data(index), s.height as int, 0, 0, 0)
    }

    /// Reads a container: the marker, the number of sprites, the header
    /// entries, and all that follows. Gives nothing if the marker is not
    /// there.
    pub fn from_reader(reader: &mut ByteReader) -> (r: Option<Self>)
        requires
            old(reader).wf(),
            old(reader).rest().len() >= 4,
            u32_le(old(reader).rest(), 0) == PSFB_MARKER ==> old(reader).rest().len() >= 8 && 8 + 8
                * u32_le(old(reader).rest(), 4) <= old(reader).rest().len(),
        ensures
            final(reader).wf(),
            final(reader).data == old(reader).data,
            r is Some ==> final(reader).pos == old(reader).data@.len(),
            r is None ==> final(reader).pos == old(reader).pos + 4,
            r is Some <==> u32_le(old(reader).rest(), 0) == PSFB_MARKER,
            r matches Some(c) ==> {
                &&& c.spec_header_size() == 8 + 8 * u32_le(old(reader).rest(), 4)
                &&& c.spec_sprites().len() == u32_le(old(reader).rest(), 4)
                &&& forall|k: int|
                    0 <= k < c.spec_sprites().len() ==> #[trigger] c.spec_sprites()[k]
                        == header_entry(old(reader).rest(), k)
                &&& c.spec_data() == old(reader).rest().skip(c.spec_header_size() as int)
            },
    {
        let ghost all = reader.rest();
        let total = reader.data.len();
        let head = match reader.read_exact(4) {
            Some(b) => b,
            None => vstd::pervasive::unreached(),
        };
        let marker = read_u32_le(head, 0);
        proof {
            assert(head@ =~= all.take(4));
            assert(u32_le(head@, 0) == u32_le(all, 0));
        }
        if marker != 0x42465350 {
            return None;
        }
        let count = match reader.read_exact(4) {
            Some(b) => b,
            None => vstd::pervasive::unreached(),
        };
        let sprite_num = read_u32_le(count, 0) as usize;
        proof {
            assert(count@ =~= all.subrange(4, 8));
            assert(u32_le(count@, 0) == u32_le(all, 4));
        }
        let header_size = 8 + 8 * sprite_num;
        let mut sprites: Vec<SpritePSFB> = Vec::new();
        let mut i: usize = 0;
        while i < sprite_num
            invariant
                i <= sprite_num,
                reader.wf(),
                reader.data == old(reader).data,
                all == old(reader).rest(),
                reader.pos == old(reader).pos + 8 + 8 * i,
                8 + 8 * sprite_num <= all.len(),
                sprites.len() == i,
                forall|k: int| 0 <= k < i ==> #[trigger] sprites[k] == header_entry(all, k),
            decreases sprite_num - i,
        {
            let ghost before = reader.rest();
            if let Some(mut sprite) = SpritePSFB::from_reader(reader) {
                proof {
                    assert(before.take(8) =~= all.subrange(8 + 8 * i, 8 + 8 * i + 8));
                    assert(u16_le(before.take(8), 0) == u16_le(all, 8 + 8 * i));
                    assert(u16_le(before.take(8), 2) == u16_le(all, 8 + 8 * i + 2));
                    assert(u32_le(before.take(8), 4) == u32_le(all, 8 + 8 * i + 4));
                }
                sprite.index = i;
                sprites.push(sprite);
            }
            i += 1;
        }
        let data_bytes = reader.read_to_end();
        let mut data: Vec<u8> = Vec::new();
        let mut k: usize = 0;
        while k < data_bytes.len()
            invariant
                k <= data_bytes.len(),
                data@ == data_bytes@.take(k as int),
            decreases data_bytes.len() - k,
        {
            data.push(data_bytes[k]);
            assert(data@ =~= data_bytes@.take(k + 1));
            k += 1;
        }
        proof {
            assert(data_bytes@.take(data_bytes.len() as int) =~= data_bytes@);
            assert(data_bytes@ =~= all.skip(header_size as int));
        }
        Some(Self { header_size, sprites, data })
    }

    /// The number of sprites.
    pub fn len(&self) -> (n: usize)
        ensures
            n == self.spec_sprites().len(),
    {
        self.sprites.len()
    }

    pub fn is_empty(&self) -> (b: bool)
        ensures
            b == (self.spec_sprites().len() == 0),
    {
        self.sprites.is_empty()
    }

    /// The number of bytes of the file.
    pub fn size(&self) -> (n: usize)
        requires
            self.spec_header_size() + self.spec_data().len() <= usize::MAX,
        ensures
            n == self.spec_header_size() + self.spec_data().len(),
    {
        self.header_size + self.data.len()
    }

    pub fn sprites_info(&self) -> (sprites: &[SpritePSFB])
        ensures
            sprites@ == self.spec_sprites(),
    {
        self.sprites.as_slice()
    }

    /// Sprite `index` as the header lists it, if there is such a sprite.
    pub fn get_info(&self, index: usize) -> (r: Option<&SpritePSFB>)
        ensures
            index < self.spec_sprites().len() ==> r == Some(&self.spec_sprites()[index as int]),
            index >= self.spec_sprites().len() ==> r is None,
    {
        if index < self.sprites.len() {
            Some(&self.sprites[index])
        } else {
            None
        }
    }

    /// The width of sprite `index`.
    pub open spec fn sprite_width(&self, index: int) -> usize {
        self.spec_sprites()[index].width as usize
    }

    /// The height of sprite `index`.
    pub open spec fn sprite_height(&self, index: int) -> usize {
        self.spec_sprites()[index].height as usize
    }

    /// `written` is `given` with sprite `index` written to it.
    pub open spec fn sprite_drawn<T: ImageStorage>(&self, index: int, given: &T, written: &T) -> bool {
        drawn(given, written, self.sprite_data(index), self.sprite_height(index) as int, 0, 0, 0)
    }

    /// `image` is a black image of the size of sprite `index` with the
    /// sprite written to it.
    pub open spec fn sprite_image(&self, index: int, image: &Image) -> bool {
        exists|blank: Image|
            is_blank(&blank, self.sprite_width(index), self.sprite_height(index))
                && #[trigger] self.sprite_drawn(index, &blank, image)
    }

    /// `given` has room for every run of sprite `index`.
    pub open spec fn sprite_fits<T: ImageStorage>(&self, index: int, given: &T) -> bool {
        can_draw(given, self.sprite_data(index), self.sprite_height(index) as int, 0, 0, 0)
    }

    /// Takes room of the size of sprite `index` from `provider` and writes
    /// the sprite to it. Tells whether there is such a sprite and there was
    /// room for it.
    pub fn get_storage<S: ImageStorageSource>(&self, index: usize, provider: &mut S) -> (done: bool)
        requires
            index < self.spec_sprites().len() ==> {
                &&& self.sprite_readable(index as int)
                &&& old(provider).can_get(
                    self.sprite_width(index as int),
                    self.sprite_height(index as int),
                )
                &&& forall|storage: S::StorageType| #[trigger]
                    old(provider).storage_given(
                        self.sprite_width(index as int),
                        self.sprite_height(index as int),
                        &storage,
                    ) ==> self.sprite_fits(index as int, &storage)
            },
        ensures
            done == (index < self.spec_sprites().len() && old(provider).has_room(
                self.sprite_width(index as int),
                self.sprite_height(index as int),
            )),
            index >= self.spec_sprites().len() ==> *final(provider) == *old(provider),
            done ==> exists|given: S::StorageType, written: S::StorageType|
                {
                    &&& old(provider).storage_given(
                        self.sprite_width(index as int),
                        self.sprite_height(index as int),
                        &given,
                    )
                    &&& #[trigger] self.sprite_drawn(index as int, &given, &written)
                    &&& old(provider).storage_returned(
                        self.sprite_width(index as int),
                        self.sprite_height(index as int),
                        final(provider),
                        &written,
                    )
                },
            index < self.spec_sprites().len() && !done ==> old(provider).storage_refused(
                self.sprite_width(index as int),
                self.sprite_height(index as int),
                final(provider),
            ),
    {
        if index < self.sprites.len() {
            let s = &self.sprites[index];
            let offset = s.offset - self.header_size;
            match provider.get_storage(s) {
                Some(storage) => {
                    let ghost given = *storage;
                    let lines = &self.data.as_slice()[offset..self.data.len()];
                    assert(lines@ =~= self.sprite_data(index as int));
                    assert(self.sprite_fits(index as int, &given));
                    s.to_storage(storage, lines);
                    proof {
                        assert(self.sprite_drawn(index as int, &given, storage));
                    }
                    return true;
                },
                None => {},
            }
        }
        false
    }

    /// Sprite `index` as an image, if there is such a sprite: a black image
    /// of the sprite's size with the sprite written to it.
    pub fn get_image(&self, index: usize) -> (r: Option<Image>)
        requires
            index < self.spec_sprites().len() ==> {
                &&& self.sprite_readable(index as int)
                &&& forall|blank: Image| #[trigger]
                    is_blank(
                        &blank,
                        self.sprite_width(index as int),
                        self.sprite_height(index as int),
                    ) ==> self.sprite_fits(index as int, &blank)
            },
        ensures
            r is Some <==> index < self.spec_sprites().len(),
            r matches Some(image) ==> self.sprite_image(index as int, &image),
    {
        if index < self.sprites.len() {
            let s = &self.sprites[index];
            let offset = s.offset - self.header_size;
            proof {
                assert(s.width * s.height <= usize::MAX) by (nonlinear_arith)
                    requires
                        s.width <= 0xffff,
                        s.height <= 0xffff,
                ;
            }
            let mut image = Image::allocate(s.width as usize, s.height as usize);
            let ghost blank = image;
            assert(is_blank(
                &blank,
                self.sprite_width(index as int),
                self.sprite_height(index as int),
            ));
            let lines = &self.data.as_slice()[offset..self.data.len()];
            assert(lines@ =~= self.sprite_data(index as int));
            assert(self.sprite_fits(index as int, &blank));
            s.to_storage(&mut image, lines);
            assert(self.sprite_drawn(index as int, &blank, &image));
            return Some(image);
        }
        None
    }
}

/// An image of the given size with every pixel zero.
pub open spec fn is_blank(image: &Image, width: usize, height: usize) -> bool {
    &&& image.width == width
    &&& image.height == height
    &&& image.wf()
    &&& forall|k: int| 0 <= k < image.data.len() ==> image.data[k] == 0
}


/// Every run of the rest of a sprite starts inside a row of `width` pixels.
pub open spec fn runs_inside(data: Seq<u8>, height: int, width: int, at: int, x: int, y: int) -> bool
    decreases data.len() - at,
{
    if y >= height || !(0 <= at < data.len()) {
        true
    } else if data[at] == 0 {
        runs_inside(data, height, width, at + 1, 0, y + 1)
    } else if signed_at(data, at) < 0 {
        runs_inside(data, height, width, at + 1, x - signed_at(data, at), y)
    } else if at + signed_at(data, at) >= data.len() {
        true
    } else {
        x <= width && runs_inside(
            data,
            height,
            width,
            at + 1 + signed_at(data, at),
            x + signed_at(data, at),
            y,
        )
    }
}

/// An image that has all its pixels has room for every run that starts
/// inside one of its rows: what of a run lies beyond the end of its row is
/// cut off.
pub proof fn lemma_image_takes_runs(image: &Image, data: Seq<u8>, height: int, at: int, x: int, y: int)
    requires
        image.wf(),
        height <= image.height,
        0 <= y,
        0 <= x <= usize::MAX,
        0 <= at,
        sprite_ok(data, height, at, x, y),
        runs_inside(data, height, image.width as int, at, x, y),
    ensures
        can_draw(image, data, height, at, x, y),
    decreases data.len() - at,
{
    if y >= height || !(0 <= at < data.len()) {
    } else if data[at] == 0 {
        lemma_image_takes_runs(image, data, height, at + 1, 0, y + 1);
    } else if signed_at(data, at) < 0 {
        lemma_image_takes_runs(image, data, height, at + 1, x - signed_at(data, at), y);
    } else {
        let step = signed_at(data, at);
        let w = image.width as int;
        assert(w * y + w <= w * image.height) by (nonlinear_arith)
            requires
                0 <= y < image.height,
                0 <= w,
        ;
        assert(0 <= w * y) by (nonlinear_arith)
            requires
                0 <= y,
                0 <= w,
        ;
        assert(image.can_set_line(x as usize, y as usize, run_at(data, at)));
        assert forall|mid: Image| #[trigger]
            image.line_set(&mid, x as usize, y as usize, run_at(data, at)) implies can_draw(
            &mid,
            data,
            height,
            at + 1 + step,
            x + step,
            y,
        ) by {
            assert(mid.wf());
            lemma_image_takes_runs(&mid, data, height, at + 1 + step, x + step, y);
        }
    }
}

impl SpritePSFB {
    /// Tells whether the lines of the sprite can be read from `data_in` and
    /// every run of them starts inside a row of `width` pixels.
    pub fn lines_fit(&self, data_in: &[u8], width: usize) -> (b: bool)
        ensures
            b == (sprite_ok(data_in@, self.height as int, 0, 0, 0) && runs_inside(
                data_in@,
                self.height as int,
                width as int,
                0,
                0,
                0,
            )),
    {
        let height = self.height as usize;
        let ghost data = data_in@;
        let mut at: usize = 0;
        let mut x: usize = 0;
        let mut y: usize = 0;
        while y < height
            invariant
                data == data_in@,
                height == self.height,
                at <= data.len(),
                (sprite_ok(data, height as int, 0, 0, 0) && runs_inside(
                    data,
                    height as int,
                    width as int,
                    0,
                    0,
                    0,
                )) == (sprite_ok(data, height as int, at as int, x as int, y as int)
                    && runs_inside(data, height as int, width as int, at as int, x as int, y as int)),
            decreases data.len() - at,
        {
            if at >= data_in.len() {
                return false;
            }
            let byte = data_in[at];
            let val: i8 = byte as i8;
            assert(byte != 0 ==> val != 0) by (bit_vector)
                requires
                    val == byte as i8,
            ;
            if byte == 0 {
                x = 0;
                y += 1;
                at += 1;
            } else if val < 0 {
                if val == -128 {
                    return false;
                }
                let gap = (-val) as usize;
                if gap > usize::MAX - x {
                    return false;
                }
                x += gap;
                at += 1;
            } else {
                let run = val as usize;
                if run >= data_in.len() - at {
                    return false;
                }
                if run > usize::MAX - x {
                    return false;
                }
                if x > width {
                    return false;
                }
                x += run;
                at += 1 + run;
            }
        }
        true
    }
}

impl ContainerPSFB {
    /// Tells whether sprite `index` can be drawn as an image: it starts
    /// inside the file, its lines can be read, and every run of them starts
    /// inside a row of the sprite. There must be such a sprite.
    pub fn image_ready(&self, index: usize) -> (b: bool)
        requires
            index < self.spec_sprites().len(),
        ensures
            b == (self.sprite_readable(index as int) && runs_inside(
                self.sprite_data(index as int),
                self.sprite_height(index as int) as int,
                self.sprite_width(index as int) as int,
                0,
                0,
                0,
            )),
            b ==> forall|blank: Image| #[trigger]
                is_blank(&blank, self.sprite_width(index as int), self.sprite_height(index as int))
                    ==> self.sprite_fits(index as int, &blank),
    {
        let s = &self.sprites[index];
        if s.offset < self.header_size || s.offset - self.header_size > self.data.len() {
            return false;
        }
        let offset = s.offset - self.header_size;
        let lines = &self.data.as_slice()[offset..self.data.len()];
        assert(lines@ =~= self.sprite_data(index as int));
        let b = s.lines_fit(lines, s.width as usize);
        proof {
            if b {
                assert forall|blank: Image| #[trigger]
                    is_blank(
                        &blank,
                        self.sprite_width(index as int),
                        self.sprite_height(index as int),
                    ) implies self.sprite_fits(index as int, &blank) by {
                    lemma_image_takes_runs(
                        &blank,
                        self.sprite_data(index as int),
                        s.height as int,
                        0,
                        0,
                        0,
                    );
                }
            }
        }
        b
    }
}

} // verus!
