//! Image sinks: a flat pixel buffer, rectangular tiles over a buffer, and the
//! strategies that place tiles inside a larger image.

use vstd::prelude::*;
use core::marker::PhantomData;

verus! {

/// Anything that has a size in pixels.
pub trait ImageInfo {
    spec fn spec_width(&self) -> usize;

    spec fn spec_height(&self) -> usize;

    fn width(&self) -> (w: usize)
        ensures
            w == self.spec_width(),
    ;

    fn height(&self) -> (h: usize)
        ensures
            h == self.spec_height(),
    ;
}

/// Anything that has a position, possibly left of or above the origin.
pub trait ImagePos {
    spec fn spec_pos_x(&self) -> isize;

    spec fn spec_pos_y(&self) -> isize;

    fn pos_x(&self) -> (x: isize)
        ensures
            x == self.spec_pos_x(),
    ;

    fn pos_y(&self) -> (y: isize)
        ensures
            y == self.spec_pos_y(),
    ;
}

/// A sink of palette indices. `x` counts columns and `y` counts rows.
///
/// Each write is described by a relation between the sink before and after
/// it, and is admitted only where the sink has room for it.
pub trait ImageStorage: ImageInfo {
    spec fn can_set_pixel(&self, x: usize, y: usize, val: u8) -> bool;

    spec fn pixel_set(&self, post: &Self, x: usize, y: usize, val: u8) -> bool;

    spec fn can_set_line(&self, x: usize, y: usize, data: Seq<u8>) -> bool;

    spec fn line_set(&self, post: &Self, x: usize, y: usize, data: Seq<u8>) -> bool;

    spec fn can_set_image(&self, data: Seq<u8>) -> bool;

    spec fn image_set(&self, post: &Self, data: Seq<u8>) -> bool;

    fn set_pixel(&mut self, x: usize, y: usize, val: u8)
        requires
            old(self).can_set_pixel(x, y, val),
        ensures
            old(self).pixel_set(final(self), x, y, val),
    ;

    fn set_line(&mut self, x: usize, y: usize, data: &[u8])
        requires
            old(self).can_set_line(x, y, data@),
        ensures
            old(self).line_set(final(self), x, y, data@),
    ;

    fn set_image(&mut self, data: &[u8])
        requires
            old(self).can_set_image(data@),
        ensures
            old(self).image_set(final(self), data@),
    ;
}

impl ImageInfo for (usize, usize) {
    open spec fn spec_width(&self) -> usize {
        self.0
    }

    open spec fn spec_height(&self) -> usize {
        self.1
    }

    fn width(&self) -> usize {
        self.0
    }

    fn height(&self) -> usize {
        self.1
    }
}

impl ImagePos for (isize, isize) {
    open spec fn spec_pos_x(&self) -> isize {
        self.0
    }

    open spec fn spec_pos_y(&self) -> isize {
        self.1
    }

    fn pos_x(&self) -> isize {
        self.0
    }

    fn pos_y(&self) -> isize {
        self.1
    }
}

/// A rectangle: a size and the position of its origin.
pub struct ImageArea {
    pub width: usize,
    pub height: usize,
    pub x: isize,
    pub y: isize,
}

impl ImageArea {
    pub fn new(width: usize, height: usize, x: isize, y: isize) -> (a: Self)
        ensures
            a.width == width,
            a.height == height,
            a.x == x,
            a.y == y,
    {
        Self { width, height, x, y }
    }

    pub fn from_image<I: ImageInfo>(i: &I, x: isize, y: isize) -> (a: Self)
        ensures
            a.width == i.spec_width(),
            a.height == i.spec_height(),
            a.x == x,
            a.y == y,
    {
        Self { width: i.width(), height: i.height(), x, y }
    }

    pub fn from_pos<I: ImagePos>(i: &I, width: usize, height: usize) -> (a: Self)
        ensures
            a.width == width,
            a.height == height,
            a.x == i.spec_pos_x(),
            a.y == i.spec_pos_y(),
    {
        Self { width, height, x: i.pos_x(), y: i.pos_y() }
    }

    pub fn from_image_and_pos<I: ImageInfo, P: ImagePos>(i: &I, p: &P) -> (a: Self)
        ensures
            a.width == i.spec_width(),
            a.height == i.spec_height(),
            a.x == p.spec_pos_x(),
            a.y == p.spec_pos_y(),
    {
        Self { width: i.width(), height: i.height(), x: p.pos_x(), y: p.pos_y() }
    }

    pub fn from_image_pos<I: ImageInfo + ImagePos>(i: &I) -> (a: Self)
        ensures
            a.width == i.spec_width(),
            a.height == i.spec_height(),
            a.x == i.spec_pos_x(),
            a.y == i.spec_pos_y(),
    {
        Self { width: i.width(), height: i.height(), x: i.pos_x(), y: i.pos_y() }
    }
}

impl ImageInfo for ImageArea {
    open spec fn spec_width(&self) -> usize {
        self.width
    }

    open spec fn spec_height(&self) -> usize {
        self.height
    }

    fn width(&self) -> usize {
        self.width
    }

    fn height(&self) -> usize {
        self.height
    }
}

impl ImagePos for ImageArea {
    open spec fn spec_pos_x(&self) -> isize {
        self.x
    }

    open spec fn spec_pos_y(&self) -> isize {
        self.y
    }

    fn pos_x(&self) -> isize {
        self.x
    }

    fn pos_y(&self) -> isize {
        self.y
    }
}

/// The smaller of two numbers.
pub open spec fn min_of(a: int, b: int) -> int {
    if a < b {
        a
    } else {
        b
    }
}

/// A buffer of palette indices, one byte per pixel, rows from top to bottom.
pub struct Image {
    pub width: usize,
    pub height: usize,
    pub data: Vec<u8>,
}

impl Image {
    /// The buffer holds exactly `width * height` pixels.
    pub open spec fn wf(&self) -> bool {
        self.data.len() == self.width * self.height
    }

    /// Where pixel `(x, y)` lies in the buffer, or the buffer's length if it
    /// lies behind its end.
    pub open spec fn pixel_index(&self, x: usize, y: usize) -> int {
        min_of(self.width * y + x, self.data.len() as int)
    }

    /// The pixel at `(x, y)`.
    pub open spec fn pixel(&self, x: int, y: int) -> u8 {
        self.data[self.width * y + x]
    }

    pub fn new(width: usize, height: usize, data: Vec<u8>) -> (img: Self)
        ensures
            img.width == width,
            img.height == height,
            img.data == data,
    {
        Self { width, height, data }
    }

    /// A black image of the given size.
    pub fn allocate(width: usize, height: usize) -> (img: Self)
        requires
            width * height <= usize::MAX,
        ensures
            img.width == width,
            img.height == height,
            img.wf(),
            forall|k: int| 0 <= k < img.data.len() ==> img.data[k] == 0,
    {
        Self { width, height, data: vec![0u8; width * height] }
    }

    fn index(&self, x: usize, y: usize) -> (k: usize)
        requires
            self.width * y + x <= usize::MAX,
        ensures
            k == self.pixel_index(x, y),
    {
        assert(self.width * y <= usize::MAX) by (nonlinear_arith)
            requires
                self.width * y + x <= usize::MAX,
        ;
        let k: usize = self.width * y + x;
        if k < self.data.len() {
            k
        } else {
            self.data.len()
        }
    }
}

/// A number below `side * n` is a whole number of `n`s, fewer than `side`,
/// and a rest below `n`.
pub proof fn lemma_split(x: int, n: int, side: int)
    requires
        0 < n,
        0 <= x < side * n,
    ensures
        0 <= x / n < side,
        0 <= x % n < n,
        (x / n) * n + x % n == x,
        n * (x / n) + x % n == x,
{
    vstd::arithmetic::div_mod::lemma_fundamental_div_mod(x, n);
    vstd::arithmetic::div_mod::lemma_mod_bound(x, n);
    vstd::arithmetic::div_mod::lemma_div_pos_is_pos(x, n);
    let q = x / n;
    assert(q * n == n * q) by (nonlinear_arith);
    assert(q < side) by (nonlinear_arith)
        requires
            n * q + x % n == x,
            0 <= x % n,
            x < side * n,
            0 < n,
    ;
}

/// Two images of one size that agree in every pixel hold the same bytes.
pub proof fn lemma_image_by_pixels(a: &Image, b: &Image)
    requires
        a.wf(),
        b.wf(),
        a.width == b.width,
        a.height == b.height,
        forall|x: int, y: int|
            0 <= x < a.width && 0 <= y < a.height ==> #[trigger] a.pixel(x, y) == b.pixel(x, y),
    ensures
        a.data@ == b.data@,
{
    assert forall|k: int| 0 <= k < a.data@.len() implies a.data@[k] == b.data@[k] by {
        let w = a.width as int;
        let h = a.height as int;
        if w > 0 {
            assert(h * w == w * h) by (nonlinear_arith);
            lemma_split(k, w, h);
            assert(a.pixel(k % w, k / w) == b.pixel(k % w, k / w));
        } else {
            assert(w * h == 0) by (nonlinear_arith)
                requires
                    w == 0,
            ;
        }
    }
    assert(a.data@ =~= b.data@);
}

/// Two outcomes of making a texture are the same: the same failure, or
/// images of one size that hold the same bytes.
pub open spec fn same_texture<E>(a: Result<Image, E>, b: Result<Image, E>) -> bool {
    match (a, b) {
        (Ok(x), Ok(y)) => x.width == y.width && x.height == y.height && x.data@ == y.data@,
        (Err(x), Err(y)) => x == y,
        _ => false,
    }
}

impl ImageInfo for Image {
    open spec fn spec_width(&self) -> usize {
        self.width
    }

    open spec fn spec_height(&self) -> usize {
        self.height
    }

    fn width(&self) -> usize {
        self.width
    }

    fn height(&self) -> usize {
        self.height
    }
}

impl ImageStorage for Image {
    open spec fn can_set_pixel(&self, x: usize, y: usize, val: u8) -> bool {
        self.width * y + x < self.data.len()
    }

    open spec fn pixel_set(&self, post: &Self, x: usize, y: usize, val: u8) -> bool {
        &&& post.width == self.width
        &&& post.height == self.height
        &&& post.data@ == self.data@.update(self.width * y + x, val)
    }

    /// The line starts inside the row, and the part of it that fits the row
    /// fits the buffer.
    open spec fn can_set_line(&self, x: usize, y: usize, data: Seq<u8>) -> bool {
        &&& x <= self.width
        &&& self.width * y + x <= usize::MAX
        &&& self.pixel_index(x, y) + min_of(data.len() as int, self.width - x)
            <= self.data.len()
    }

    /// The line, cut at the end of the row, replaces what was there.
    open spec fn line_set(&self, post: &Self, x: usize, y: usize, data: Seq<u8>) -> bool {
        let at = self.pixel_index(x, y);
        let n = min_of(data.len() as int, self.width - x);
        &&& post.width == self.width
        &&& post.height == self.height
        &&& post.data@ == self.data@.subrange(0, at) + data.subrange(0, n) + self.data@.subrange(
            at + n,
            self.data.len() as int,
        )
    }

    open spec fn can_set_image(&self, data: Seq<u8>) -> bool {
        data.len() >= self.data.len()
    }

    open spec fn image_set(&self, post: &Self, data: Seq<u8>) -> bool {
        &&& post.width == self.width
        &&& post.height == self.height
        &&& post.data@ == data.subrange(0, self.data.len() as int)
    }

    fn set_pixel(&mut self, x: usize, y: usize, val: u8) {
        let index = self.index(x, y);
        self.data[index] = val;
    }

    fn set_line(&mut self, x: usize, y: usize, data: &[u8]) {
        let index = self.index(x, y);
        let room: usize = self.width - x;
        let to_copy: usize = if data.len() < room {
            data.len()
        } else {
            room
        };
        let mut k: usize = 0;
        while k < to_copy
            invariant
                k <= to_copy,
                to_copy <= data.len(),
                index + to_copy <= self.data.len(),
                self.width == old(self).width,
                self.height == old(self).height,
                self.data.len() == old(self).data.len(),
                forall|m: int| 0 <= m < index ==> self.data[m] == old(self).data[m],
                forall|m: int| index <= m < index + k ==> self.data[m] == data[m - index],
                forall|m: int|
                    index + k <= m < self.data.len() ==> self.data[m] == old(self).data[m],
            decreases to_copy - k,
        {
            self.data[index + k] = data[k];
            k += 1;
        }
        assert(self.data@ =~= old(self).data@.subrange(0, index as int) + data@.subrange(
            0,
            to_copy as int,
        ) + old(self).data@.subrange(index + to_copy, old(self).data.len() as int));
    }

    fn set_image(&mut self, data: &[u8]) {
        let n = self.data.len();
        let mut k: usize = 0;
        while k < n
            invariant
                k <= n,
                n == self.data.len(),
                n <= data.len(),
                self.width == old(self).width,
                self.height == old(self).height,
                self.data.len() == old(self).data.len(),
                forall|m: int| 0 <= m < k ==> self.data[m] == data[m],
            decreases n - k,
        {
            self.data[k] = data[k];
            k += 1;
        }
        assert(self.data@ =~= data@.subrange(0, n as int));
    }
}

/// A rectangular window into an image. Writes to the tile are moved by the
/// tile's origin and handed to the image.
pub struct ImageTile<I> {
    pub image: I,
    pub start_x: usize,
    pub start_y: usize,
    pub tile_width: usize,
    pub tile_height: usize,
}

impl<I> ImageTile<I> {
    /// An empty tile at the origin of `image`.
    pub fn new(image: I) -> (t: Self)
        ensures
            t.image == image,
            t.start_x == 0,
            t.start_y == 0,
            t.tile_width == 0,
            t.tile_height == 0,
    {
        Self { image, start_x: 0, start_y: 0, tile_width: 0, tile_height: 0 }
    }

    /// Gives the image back.
    pub fn get_image(self) -> (image: I)
        ensures
            image == self.image,
    {
        self.image
    }

    /// Moves the tile's origin by a signed offset.
    pub fn move_tile(&mut self, start_x: isize, start_y: isize)
        requires
            0 <= old(self).start_x + start_x <= isize::MAX,
            0 <= old(self).start_y + start_y <= isize::MAX,
        ensures
            final(self).start_x == old(self).start_x + start_x,
            final(self).start_y == old(self).start_y + start_y,
            final(self).image == old(self).image,
            final(self).tile_width == old(self).tile_width,
            final(self).tile_height == old(self).tile_height,
    {
        self.start_x = shifted(self.start_x, start_x);
        self.start_y = shifted(self.start_y, start_y);
    }
}

/// `at + by`, for a sum that is a position.
fn shifted(at: usize, by: isize) -> (r: usize)
    requires
        0 <= at + by <= isize::MAX,
    ensures
        r == at + by,
{
    if by >= 0 {
        at + (by as usize)
    } else if by == isize::MIN {
        at - (isize::MAX as usize) - 1
    } else {
        at - ((-by) as usize)
    }
}

impl<I: ImageStorage> ImageTile<I> {
    /// Row `row` of a block of pixels as wide as the tile.
    pub open spec fn row_of(&self, data: Seq<u8>, row: int) -> Seq<u8> {
        data.subrange(row * self.tile_width, row * self.tile_width + self.tile_width)
    }

    /// `post` is this tile after the first `rows` rows of `data` were written
    /// to it, line by line from the top.
    pub open spec fn rows_set(&self, post: &Self, data: Seq<u8>, rows: nat) -> bool
        decreases rows,
    {
        if rows == 0 {
            *post == *self
        } else {
            exists|mid: Self|
                self.rows_set(&mid, data, (rows - 1) as nat) && #[trigger] mid.line_set(
                    post,
                    0,
                    (rows - 1) as usize,
                    self.row_of(data, rows - 1),
                )
        }
    }
}

impl<I: ImageStorage> ImageInfo for ImageTile<I> {
    open spec fn spec_width(&self) -> usize {
        self.tile_width
    }

    open spec fn spec_height(&self) -> usize {
        self.tile_height
    }

    fn width(&self) -> usize {
        self.tile_width
    }

    fn height(&self) -> usize {
        self.tile_height
    }
}

impl<I: ImageStorage> ImageStorage for ImageTile<I> {
    open spec fn can_set_pixel(&self, x: usize, y: usize, val: u8) -> bool {
        &&& self.start_x + x <= usize::MAX
        &&& self.start_y + y <= usize::MAX
        &&& self.image.can_set_pixel(
            (self.start_x + x) as usize,
            (self.start_y + y) as usize,
            val,
        )
    }

    open spec fn pixel_set(&self, post: &Self, x: usize, y: usize, val: u8) -> bool {
        &&& post.start_x == self.start_x
        &&& post.start_y == self.start_y
        &&& post.tile_width == self.tile_width
        &&& post.tile_height == self.tile_height
        &&& self.image.pixel_set(
            &post.image,
            (self.start_x + x) as usize,
            (self.start_y + y) as usize,
            val,
        )
    }

    open spec fn can_set_line(&self, x: usize, y: usize, data: Seq<u8>) -> bool {
        &&& self.start_x + x <= usize::MAX
        &&& self.start_y + y <= usize::MAX
        &&& self.image.can_set_line(
            (self.start_x + x) as usize,
            (self.start_y + y) as usize,
            data,
        )
    }

    open spec fn line_set(&self, post: &Self, x: usize, y: usize, data: Seq<u8>) -> bool {
        &&& post.start_x == self.start_x
        &&& post.start_y == self.start_y
        &&& post.tile_width == self.tile_width
        &&& post.tile_height == self.tile_height
        &&& self.image.line_set(
            &post.image,
            (self.start_x + x) as usize,
            (self.start_y + y) as usize,
            data,
        )
    }

    /// The block holds a row for each row of the tile, and each row can be
    /// written once the rows above it are.
    open spec fn can_set_image(&self, data: Seq<u8>) -> bool {
        &&& self.tile_height * self.tile_width <= data.len()
        &&& forall|rows: nat, mid: Self|
            rows < self.tile_height && #[trigger] self.rows_set(&mid, data, rows)
                ==> mid.can_set_line(0, rows as usize, self.row_of(data, rows as int))
    }

    open spec fn image_set(&self, post: &Self, data: Seq<u8>) -> bool {
        self.rows_set(post, data, self.tile_height as nat)
    }

    fn set_pixel(&mut self, x: usize, y: usize, val: u8) {
        self.image.set_pixel(self.start_x + x, self.start_y + y, val);
    }

    fn set_line(&mut self, x: usize, y: usize, data: &[u8]) {
        self.image.set_line(self.start_x + x, self.start_y + y, data);
    }

    fn set_image(&mut self, data: &[u8]) {
        let len = data.len();
        let mut y: usize = 0;
        while y < self.tile_height
            invariant
                y <= self.tile_height,
                len == data@.len(),
                self.tile_height == old(self).tile_height,
                self.tile_width == old(self).tile_width,
                (*old(self)).can_set_image(data@),
                old(self).rows_set(self, data@, y as nat),
            decreases self.tile_height - y,
        {
            let ghost before = *self;
            proof {
                lemma_row_fits(y as int, self.tile_height as int, self.tile_width as int);
                assert(self.tile_height * self.tile_width <= data@.len());
            }
            let offset: usize = y * self.tile_width;
            let slice = &data[offset..(offset + self.tile_width)];
            assert(slice@ == old(self).row_of(data@, y as int));
            self.set_line(0, y, slice);
            y += 1;
            proof {
                let rows = y as nat;
                assert(old(self).rows_set(&before, data@, (rows - 1) as nat));
                assert(before.line_set(
                    self,
                    0,
                    (rows - 1) as usize,
                    old(self).row_of(data@, rows - 1),
                ));
                assert(old(self).rows_set(self, data@, rows));
            }
        }
    }
}

/// Row `y` of `h` rows of width `w` ends inside the block of `h * w`.
proof fn lemma_row_fits(y: int, h: int, w: int)
    by (nonlinear_arith)
    requires
        0 <= y < h,
        0 <= w,
    ensures
        0 <= y * w,
        y * w + w <= h * w,
{
}

/// Places tiles of one size on a grid, `total_width` tiles across and
/// `total_height` tiles down.
pub struct TiledComposer {
    pub total_width: usize,
    pub total_height: usize,
    pub tile_width: usize,
    pub tile_height: usize,
}

impl TiledComposer {
    pub fn new(total_width: usize, total_height: usize, tile_width: usize, tile_height: usize) -> (c:
        Self)
        ensures
            c.total_width == total_width,
            c.total_height == total_height,
            c.tile_width == tile_width,
            c.tile_height == tile_height,
    {
        Self { total_width, total_height, tile_width, tile_height }
    }

    /// Grid position `(x, y)` exists.
    pub open spec fn on_grid(&self, x: usize, y: usize) -> bool {
        x < self.total_width && y < self.total_height
    }

    /// Moves `storage` to grid position `(x, y)` and gives it the size of a
    /// tile, if the position exists; else leaves it as it is.
    pub fn set_tile<S: ImageInfo + ImageStorage>(
        &mut self,
        storage: &mut ImageTile<S>,
        x: usize,
        y: usize,
    ) -> (placed: bool)
        requires
            old(self).on_grid(x, y) ==> x * old(self).tile_width <= usize::MAX && y * old(
                self,
            ).tile_height <= usize::MAX,
        ensures
            *final(self) == *old(self),
            placed == old(self).on_grid(x, y),
            final(storage).image == old(storage).image,
            placed ==> final(storage).start_x == x * old(self).tile_width && final(storage).start_y
                == y * old(self).tile_height && final(storage).tile_width == old(self).tile_width
                && final(storage).tile_height == old(self).tile_height,
            !placed ==> *final(storage) == *old(storage),
    {
        if x >= self.total_width {
            return false;
        }
        if y >= self.total_height {
            return false;
        }
        storage.start_x = x * self.tile_width;
        storage.start_y = y * self.tile_height;
        storage.tile_width = self.tile_width;
        storage.tile_height = self.tile_height;
        true
    }
}

/// An image together with the strategy that places tiles in it.
pub struct ImageSourceComposed<C, S> {
    pub composer: C,
    pub tile: ImageTile<S>,
}

impl<C, S> ImageSourceComposed<C, S> {
    pub fn new(composer: C, image: S) -> (s: Self)
        ensures
            s.composer == composer,
            s.tile.image == image,
            s.tile.start_x == 0,
            s.tile.start_y == 0,
            s.tile.tile_width == 0,
            s.tile.tile_height == 0,
    {
        Self { composer, tile: ImageTile::new(image) }
    }

    /// Gives the image back, with all that was written to its tiles.
    pub fn get_image(self) -> (image: S)
        ensures
            image == self.tile.image,
    {
        self.tile.get_image()
    }
}

/// A source of tiles that are addressed by their position on a grid.
pub trait ImageTileSource {
    type Tile: ImageStorage + ImageInfo;

    /// The source has a tile at grid position `(x, y)`.
    spec fn has_tile(&self, x: usize, y: usize) -> bool;

    /// `tile` is what the source hands out for grid position `(x, y)`.
    spec fn tile_given(&self, x: usize, y: usize, tile: &Self::Tile) -> bool;

    /// `post` is the source once the tile that it handed out has become `tile`.
    spec fn tile_returned(&self, post: &Self, tile: &Self::Tile) -> bool;

    fn next_tile(&mut self, x: usize, y: usize) -> (tile: &mut Self::Tile)
        requires
            old(self).has_tile(x, y),
        ensures
            old(self).tile_given(x, y, tile),
            old(self).tile_returned(final(self), final(tile)),
    ;
}

impl<M: ImageInfo + ImageStorage> ImageTileSource for ImageSourceComposed<TiledComposer, M> {
    type Tile = ImageTile<M>;

    open spec fn has_tile(&self, x: usize, y: usize) -> bool {
        &&& self.composer.on_grid(x, y)
        &&& x * self.composer.tile_width <= usize::MAX
        &&& y * self.composer.tile_height <= usize::MAX
    }

    open spec fn tile_given(&self, x: usize, y: usize, tile: &ImageTile<M>) -> bool {
        &&& tile.image == self.tile.image
        &&& tile.start_x == x * self.composer.tile_width
        &&& tile.start_y == y * self.composer.tile_height
        &&& tile.tile_width == self.composer.tile_width
        &&& tile.tile_height == self.composer.tile_height
    }

    open spec fn tile_returned(&self, post: &Self, tile: &ImageTile<M>) -> bool {
        post.composer == self.composer && post.tile == *tile
    }

    fn next_tile(&mut self, x: usize, y: usize) -> (tile: &mut ImageTile<M>) {
        let placed = self.composer.set_tile(&mut self.tile, x, y);
        assert(placed);
        &mut self.tile
    }
}


/// The bytes of a file, read from front to back.
pub struct ByteReader<'a> {
    pub data: &'a [u8],
    /// How many bytes are read.
    pub pos: usize,
}

impl<'a> ByteReader<'a> {
    /// No more is read than there is.
    pub open spec fn wf(&self) -> bool {
        self.pos <= self.data@.len()
    }

    /// What is not read yet.
    pub open spec fn rest(&self) -> Seq<u8> {
        self.data@.subrange(self.pos as int, self.data@.len() as int)
    }

    pub fn new(data: &'a [u8]) -> (reader: Self)
        ensures
            reader.data == data,
            reader.pos == 0,
            reader.wf(),
    {
        Self { data, pos: 0 }
    }

    /// Reads the next `n` bytes, or nothing if there are fewer.
    pub fn read_exact(&mut self, n: usize) -> (r: Option<&'a [u8]>)
        requires
            old(self).wf(),
        ensures
            final(self).wf(),
            final(self).data == old(self).data,
            old(self).rest().len() >= n ==> final(self).pos == old(self).pos + n && r is Some
                && r->Some_0@ == old(self).rest().take(n as int),
            old(self).rest().len() < n ==> final(self).pos == old(self).pos && r is None,
    {
        let data: &'a [u8] = self.data;
        if data.len() - self.pos < n {
            return None;
        }
        let from = self.pos;
        self.pos = from + n;
        let bytes = &data[from..from + n];
        assert(bytes@ =~= old(self).rest().take(n as int));
        Some(bytes)
    }

    /// Reads all that is left.
    pub fn read_to_end(&mut self) -> (r: &'a [u8])
        requires
            old(self).wf(),
        ensures
            final(self).wf(),
            final(self).data == old(self).data,
            final(self).pos == old(self).data@.len(),
            r@ == old(self).rest(),
    {
        let data: &'a [u8] = self.data;
        let from = self.pos;
        self.pos = data.len();
        &data[from..data.len()]
    }
}

/// The number that the two bytes at `at` spell, low byte first.
pub open spec fn u16_le(bytes: Seq<u8>, at: int) -> u16 {
    (bytes[at] as int + 0x100 * (bytes[at + 1] as int)) as u16
}

/// The number that the four bytes at `at` spell, low byte first.
pub open spec fn u32_le(bytes: Seq<u8>, at: int) -> u32 {
    (bytes[at] as int + 0x100 * (bytes[at + 1] as int) + 0x1_0000 * (bytes[at + 2] as int)
        + 0x100_0000 * (bytes[at + 3] as int)) as u32
}

/// Reads the number that the two bytes at `at` spell, low byte first.
pub fn read_u16_le(bytes: &[u8], at: usize) -> (v: u16)
    requires
        at + 1 < bytes@.len(),
    ensures
        v == u16_le(bytes@, at as int),
{
    bytes[at] as u16 + 0x100 * (bytes[at + 1] as u16)
}

/// Reads the number that the four bytes at `at` spell, low byte first.
pub fn read_u32_le(bytes: &[u8], at: usize) -> (v: u32)
    requires
        at + 3 < bytes@.len(),
    ensures
        v == u32_le(bytes@, at as int),
{
    bytes[at] as u32 + 0x100 * (bytes[at + 1] as u32) + 0x1_0000 * (bytes[at + 2] as u32)
        + 0x100_0000 * (bytes[at + 3] as u32)
}

/// Record `k` of a file of records of `size` bytes.
pub open spec fn record_bytes(bytes: Seq<u8>, size: int, k: int) -> Seq<u8> {
    bytes.subrange(k * size, k * size + size)
}

/// A record of a fixed number of bytes, fields packed and low bytes first.
pub trait BinDeserializer: Sized {
    /// The number of bytes of a record.
    spec fn spec_size() -> usize;

    /// `record` is the record that `bytes` hold.
    spec fn decodes(bytes: Seq<u8>, record: &Self) -> bool;

    proof fn lemma_size_positive()
        ensures
            Self::spec_size() > 0,
    ;

    fn size() -> (n: usize)
        ensures
            n == Self::spec_size(),
    ;

    fn decode(bytes: &[u8]) -> (r: Self)
        requires
            bytes@.len() == Self::spec_size(),
        ensures
            Self::decodes(bytes@, &r),
    ;

    /// Reads the next record, or nothing if a whole record is not left.
    fn from_reader(reader: &mut ByteReader) -> (r: Option<Self>)
        requires
            old(reader).wf(),
        ensures
            final(reader).wf(),
            final(reader).data == old(reader).data,
            old(reader).rest().len() >= Self::spec_size() ==> final(reader).pos == old(reader).pos
                + Self::spec_size() && r is Some && Self::decodes(
                old(reader).rest().take(Self::spec_size() as int),
                &r->Some_0,
            ),
            old(reader).rest().len() < Self::spec_size() ==> final(reader).pos == old(reader).pos
                && r is None,
    {
        match reader.read_exact(Self::size()) {
            Some(bytes) => Some(Self::decode(bytes)),
            None => None,
        }
    }

    /// Reads records as long as a whole record is left.
    fn from_reader_vec(reader: &mut ByteReader) -> (res: Vec<Self>)
        requires
            old(reader).wf(),
        ensures
            final(reader).wf(),
            final(reader).data == old(reader).data,
            res.len() == (old(reader).rest().len() as int) / (Self::spec_size() as int),
            final(reader).pos == old(reader).pos + res.len() * Self::spec_size(),
            forall|k: int|
                0 <= k < res.len() ==> Self::decodes(
                    record_bytes(old(reader).rest(), Self::spec_size() as int, k),
                    &#[trigger] res[k],
                ),
    {
        let mut res: Vec<Self> = Vec::new();
        let ghost all = reader.rest();
        let ghost size = Self::spec_size() as int;
        proof {
            Self::lemma_size_positive();
            assert(0 * size == 0) by (nonlinear_arith);
        }
        loop
            invariant
                reader.wf(),
                reader.data == old(reader).data,
                all == old(reader).rest(),
                size == Self::spec_size(),
                size > 0,
                reader.pos == old(reader).pos + res.len() * size,
                forall|k: int|
                    0 <= k < res.len() ==> Self::decodes(
                        record_bytes(all, size, k),
                        &#[trigger] res[k],
                    ),
            ensures
                reader.wf(),
                reader.data == old(reader).data,
                reader.pos == old(reader).pos + res.len() * size,
                res.len() * size <= all.len() < res.len() * size + size,
                forall|k: int|
                    0 <= k < res.len() ==> Self::decodes(
                        record_bytes(all, size, k),
                        &#[trigger] res[k],
                    ),
            decreases reader.data@.len() - reader.pos,
        {
            let ghost before = *reader;
            let ghost count = res.len() as int;
            match Self::from_reader(reader) {
                Some(obj) => {
                    res.push(obj);
                    proof {
                        assert((count + 1) * size == count * size + size) by (nonlinear_arith);
                        assert(before.rest().take(size) =~= record_bytes(all, size, count));
                    }
                },
                None => {
                    break ;
                },
            }
        }
        proof {
            let q = res.len() as int;
            let len = all.len() as int;
            assert(len / size == q) by (nonlinear_arith)
                requires
                    q * size <= len < q * size + size,
                    size > 0,
            ;
        }
        res
    }
}

/// A strategy that places the tiles of an image one after the other.
pub trait ImageComposer: Sized {
    /// The composer can be asked for a tile of this size.
    spec fn can_compose(&self, width: usize, height: usize) -> bool;

    /// Where the next tile of this size goes, if the composer has room for
    /// it: the column and the row of its upper left pixel.
    spec fn place(&self, width: usize, height: usize) -> Option<(usize, usize)>;

    /// The composer after it was asked for a tile of this size.
    spec fn composed(&self, width: usize, height: usize) -> Self;

    /// Moves `storage` to the place of the next tile and gives it the size
    /// of `info`, if there is room; else leaves it as it is.
    fn compose<I: ImageInfo, S: ImageInfo + ImageStorage>(
        &mut self,
        storage: &mut ImageTile<S>,
        info: &I,
    ) -> (placed: bool)
        requires
            old(self).can_compose(info.spec_width(), info.spec_height()),
        ensures
            *final(self) == old(self).composed(info.spec_width(), info.spec_height()),
            placed == old(self).place(info.spec_width(), info.spec_height()) is Some,
            final(storage).image == old(storage).image,
            placed ==> final(storage).start_x == old(self).place(
                info.spec_width(),
                info.spec_height(),
            )->Some_0.0 && final(storage).start_y == old(self).place(
                info.spec_width(),
                info.spec_height(),
            )->Some_0.1 && final(storage).tile_width == info.spec_width() && final(storage).tile_height
                == info.spec_height(),
            !placed ==> *final(storage) == *old(storage),
    ;
}

/// Marks a composer that packs its tiles into a row.
pub struct ComposeHorizontal;

/// Marks a composer that packs its tiles into a column.
pub struct ComposeVertical;

/// Packs tiles one after the other in one direction, each one
/// `tile_width` or `tile_height` further than the one before.
pub struct ImageComposer1D<D> {
    pub total_width: usize,
    pub total_height: usize,
    pub tile_width: usize,
    pub tile_height: usize,
    pub pos_x: usize,
    pub pos_y: usize,
    pub phantom: PhantomData<D>,
}

impl ImageComposer for ImageComposer1D<ComposeHorizontal> {
    open spec fn can_compose(&self, width: usize, height: usize) -> bool {
        &&& self.pos_x <= self.total_width
        &&& self.place(width, height) is Some ==> self.pos_x + self.tile_width <= usize::MAX
    }

    /// The next tile goes to the right of the last, if it fits what is left
    /// of the width and is not higher than the image.
    open spec fn place(&self, width: usize, height: usize) -> Option<(usize, usize)> {
        if self.total_width - self.pos_x < width || self.total_height < height {
            None
        } else {
            Some((self.pos_x, self.pos_y))
        }
    }

    open spec fn composed(&self, width: usize, height: usize) -> Self {
        if self.place(width, height) is Some {
            ImageComposer1D { pos_x: (self.pos_x + self.tile_width) as usize, ..*self }
        } else {
            *self
        }
    }

    fn compose<I: ImageInfo, S: ImageInfo + ImageStorage>(
        &mut self,
        storage: &mut ImageTile<S>,
        info: &I,
    ) -> (placed: bool) {
        if (self.total_width - self.pos_x) < info.width() {
            return false;
        }
        if self.total_height < info.height() {
            return false;
        }
        storage.start_x = self.pos_x;
        storage.start_y = self.pos_y;
        storage.tile_width = info.width();
        storage.tile_height = info.height();
        self.pos_x += self.tile_width;
        true
    }
}

impl ImageComposer for ImageComposer1D<ComposeVertical> {
    open spec fn can_compose(&self, width: usize, height: usize) -> bool {
        &&& self.pos_y <= self.total_height
        &&& self.place(width, height) is Some ==> self.pos_y + self.tile_height <= usize::MAX
    }

    /// The next tile goes below the last, if it is not wider than the image
    /// and fits what is left of the height.
    open spec fn place(&self, width: usize, height: usize) -> Option<(usize, usize)> {
        if self.total_width < width || self.total_height - self.pos_y < height {
            None
        } else {
            Some((self.pos_x, self.pos_y))
        }
    }

    open spec fn composed(&self, width: usize, height: usize) -> Self {
        if self.place(width, height) is Some {
            ImageComposer1D { pos_y: (self.pos_y + self.tile_height) as usize, ..*self }
        } else {
            *self
        }
    }

    fn compose<I: ImageInfo, S: ImageInfo + ImageStorage>(
        &mut self,
        storage: &mut ImageTile<S>,
        info: &I,
    ) -> (placed: bool) {
        if self.total_width < info.width() {
            return false;
        }
        if (self.total_height - self.pos_y) < info.height() {
            return false;
        }
        storage.start_x = self.pos_x;
        storage.start_y = self.pos_y;
        storage.tile_width = info.width();
        storage.tile_height = info.height();
        self.pos_y += self.tile_height;
        true
    }
}

impl<D> ImageInfo for ImageComposer1D<D> {
    open spec fn spec_width(&self) -> usize {
        self.total_width
    }

    open spec fn spec_height(&self) -> usize {
        self.total_height
    }

    fn width(&self) -> usize {
        self.total_width
    }

    fn height(&self) -> usize {
        self.total_height
    }
}

/// Packs tiles of any size into rows from left to right, and starts a new
/// row below the highest tile of the last when a tile does not fit.
pub struct ImageComposer2D {
    pub total_width: usize,
    pub total_height: usize,
    pub pos_x: usize,
    pub pos_y: usize,
    pub max_height: usize,
}

impl ImageComposer2D {
    /// A tile of this width does not fit the row.
    pub open spec fn breaks_row(&self, width: usize) -> bool {
        self.pos_x + width > self.total_width
    }

    /// The row that a tile of this width goes to.
    pub open spec fn row_for(&self, width: usize) -> int {
        if self.breaks_row(width) {
            self.pos_y + self.max_height
        } else {
            self.pos_y as int
        }
    }

    /// The column that a tile of this width goes to.
    pub open spec fn column_for(&self, width: usize) -> int {
        if self.breaks_row(width) {
            0
        } else {
            self.pos_x as int
        }
    }
}

impl ImageComposer for ImageComposer2D {
    open spec fn can_compose(&self, width: usize, height: usize) -> bool {
        &&& self.pos_x + width <= usize::MAX
        &&& self.pos_y + self.max_height <= usize::MAX
    }

    /// The tile goes to its row, unless the row starts below the image.
    open spec fn place(&self, width: usize, height: usize) -> Option<(usize, usize)> {
        if self.row_for(width) > self.total_height {
            None
        } else {
            Some((self.column_for(width) as usize, self.row_for(width) as usize))
        }
    }

    open spec fn composed(&self, width: usize, height: usize) -> Self {
        let row_height = if self.breaks_row(width) {
            0
        } else {
            self.max_height
        };
        if self.place(width, height) is Some {
            ImageComposer2D {
                pos_x: (self.column_for(width) + width) as usize,
                pos_y: self.row_for(width) as usize,
                max_height: if row_height < height {
                    height
                } else {
                    row_height
                },
                ..*self
            }
        } else {
            ImageComposer2D {
                pos_x: self.column_for(width) as usize,
                pos_y: self.row_for(width) as usize,
                max_height: row_height,
                ..*self
            }
        }
    }

    fn compose<I: ImageInfo, S: ImageInfo + ImageStorage>(
        &mut self,
        storage: &mut ImageTile<S>,
        info: &I,
    ) -> (placed: bool) {
        if (self.pos_x + info.width()) > self.total_width {
            self.pos_x = 0;
            self.pos_y += self.max_height;
            self.max_height = 0;
        }
        if self.pos_y > self.total_height {
            return false;
        }
        storage.start_x = self.pos_x;
        storage.start_y = self.pos_y;
        storage.tile_width = info.width();
        storage.tile_height = info.height();
        self.pos_x += info.width();
        if self.max_height < info.height() {
            self.max_height = info.height();
        }
        true
    }
}

impl ImageInfo for ImageComposer2D {
    open spec fn spec_width(&self) -> usize {
        self.total_width
    }

    open spec fn spec_height(&self) -> usize {
        self.total_height
    }

    fn width(&self) -> usize {
        self.total_width
    }

    fn height(&self) -> usize {
        self.total_height
    }
}

/// A source of places to write images to.
pub trait ImageStorageSource: Sized {
    type StorageType: ImageStorage;

    /// The source can be asked for room of this size.
    spec fn can_get(&self, width: usize, height: usize) -> bool;

    /// The source has room of this size.
    spec fn has_room(&self, width: usize, height: usize) -> bool;

    /// `storage` is what the source hands out for room of this size.
    spec fn storage_given(&self, width: usize, height: usize, storage: &Self::StorageType) -> bool;

    /// `post` is the source once what it handed out has become `storage`.
    spec fn storage_returned(
        &self,
        width: usize,
        height: usize,
        post: &Self,
        storage: &Self::StorageType,
    ) -> bool;

    /// `post` is the source after it found no room of this size.
    spec fn storage_refused(&self, width: usize, height: usize, post: &Self) -> bool;

    fn get_storage<I: ImageInfo>(&mut self, info: &I) -> (r: Option<&mut Self::StorageType>)
        requires
            old(self).can_get(info.spec_width(), info.spec_height()),
        ensures
            r is Some <==> old(self).has_room(info.spec_width(), info.spec_height()),
            r matches Some(storage) ==> old(self).storage_given(
                info.spec_width(),
                info.spec_height(),
                storage,
            ) && old(self).storage_returned(
                info.spec_width(),
                info.spec_height(),
                final(self),
                final(storage),
            ),
            r is None ==> old(self).storage_refused(
                info.spec_width(),
                info.spec_height(),
                final(self),
            ),
    ;
}

impl<C: ImageComposer, M: ImageInfo + ImageStorage> ImageStorageSource for ImageSourceComposed<
    C,
    M,
> {
    type StorageType = ImageTile<M>;

    open spec fn can_get(&self, width: usize, height: usize) -> bool {
        self.composer.can_compose(width, height)
    }

    open spec fn has_room(&self, width: usize, height: usize) -> bool {
        self.composer.place(width, height) is Some
    }

    /// The tile of the image at the place that the composer chose.
    open spec fn storage_given(&self, width: usize, height: usize, storage: &ImageTile<M>) -> bool {
        &&& storage.image == self.tile.image
        &&& storage.start_x == self.composer.place(width, height)->Some_0.0
        &&& storage.start_y == self.composer.place(width, height)->Some_0.1
        &&& storage.tile_width == width
        &&& storage.tile_height == height
    }

    open spec fn storage_returned(
        &self,
        width: usize,
        height: usize,
        post: &Self,
        storage: &ImageTile<M>,
    ) -> bool {
        post.composer == self.composer.composed(width, height) && post.tile == *storage
    }

    open spec fn storage_refused(&self, width: usize, height: usize, post: &Self) -> bool {
        post.composer == self.composer.composed(width, height) && post.tile == self.tile
    }

    fn get_storage<I: ImageInfo>(&mut self, info: &I) -> (r: Option<&mut ImageTile<M>>) {
        if self.composer.compose(&mut self.tile, info) {
            Some(&mut self.tile)
        } else {
            None
        }
    }
}

impl ImageStorageSource for Vec<Image> {
    type StorageType = Image;

    open spec fn can_get(&self, width: usize, height: usize) -> bool {
        width * height <= usize::MAX
    }

    open spec fn has_room(&self, width: usize, height: usize) -> bool {
        true
    }

    /// A new black image of the size asked for.
    open spec fn storage_given(&self, width: usize, height: usize, storage: &Image) -> bool {
        &&& storage.width == width
        &&& storage.height == height
        &&& storage.wf()
        &&& forall|k: int| 0 <= k < storage.data.len() ==> storage.data[k] == 0
    }

    /// The image is the last of the list.
    open spec fn storage_returned(
        &self,
        width: usize,
        height: usize,
        post: &Self,
        storage: &Image,
    ) -> bool {
        post@ =~= self@.push(*storage)
    }

    open spec fn storage_refused(&self, width: usize, height: usize, post: &Self) -> bool {
        false
    }

    fn get_storage<I: ImageInfo>(&mut self, info: &I) -> (r: Option<&mut Image>) {
        let storage = Image::allocate(info.width(), info.height());
        self.push(storage);
        let index = self.len() - 1;
        Some(&mut self[index])
    }
}

/// A maker of image buffers.
pub trait ImageAllocator<T> {
    /// A buffer of this size can be made.
    spec fn can_allocate(&self, width: usize, height: usize) -> bool;

    /// `made` is a new buffer of this size.
    spec fn allocated(&self, width: usize, height: usize, made: &T) -> bool;

    fn allocate<I: ImageInfo>(&self, info: &I) -> (made: T)
        requires
            self.can_allocate(info.spec_width(), info.spec_height()),
        ensures
            self.allocated(info.spec_width(), info.spec_height(), &made),
    ;
}

impl ImageAllocator<Image> for () {
    open spec fn can_allocate(&self, width: usize, height: usize) -> bool {
        width * height <= usize::MAX
    }

    open spec fn allocated(&self, width: usize, height: usize, made: &Image) -> bool {
        &&& made.width == width
        &&& made.height == height
        &&& made.wf()
        &&& forall|k: int| 0 <= k < made.data.len() ==> made.data[k] == 0
    }

    fn allocate<I: ImageInfo>(&self, info: &I) -> (made: Image) {
        Image::allocate(info.width(), info.height())
    }
}

/// A maker of composers for a number of tiles of one size.
pub trait AllocatorEqual<T> {
    /// A composer for `num` tiles of this size can be made.
    spec fn can_alloc_equal(&self, width: usize, height: usize, num: usize) -> bool;

    /// `made` is new and has room for `num` tiles of this size.
    spec fn equal_allocated(&self, width: usize, height: usize, num: usize, made: &T) -> bool;

    fn alloc_equal<I: ImageInfo>(&self, info: &I, num: usize) -> (made: T)
        requires
            self.can_alloc_equal(info.spec_width(), info.spec_height(), num),
        ensures
            self.equal_allocated(info.spec_width(), info.spec_height(), num, &made),
    ;
}

/// A maker of composers for tiles of given sizes.
pub trait AllocatorIter<T> {
    /// A composer for tiles of these sizes can be made.
    spec fn can_alloc_iter(&self, sizes: Seq<(usize, usize)>) -> bool;

    /// `made` is new and has room for tiles of these sizes, in this order.
    spec fn iter_allocated(&self, sizes: Seq<(usize, usize)>, made: &T) -> bool;

    fn alloc_iter<I: ImageInfo>(&self, infos: &[I]) -> (made: T)
        requires
            self.can_alloc_iter(sizes_of(infos@)),
        ensures
            self.iter_allocated(sizes_of(infos@), &made),
    ;
}

/// The widths and heights of a list of things that have a size.
pub open spec fn sizes_of<I: ImageInfo>(infos: Seq<I>) -> Seq<(usize, usize)> {
    Seq::new(infos.len(), |k: int| (infos[k].spec_width(), infos[k].spec_height()))
}

impl AllocatorEqual<ImageComposer1D<ComposeHorizontal>> for () {
    open spec fn can_alloc_equal(&self, width: usize, height: usize, num: usize) -> bool {
        width * num <= usize::MAX
    }

    /// A row as wide as `num` tiles and as high as one.
    open spec fn equal_allocated(
        &self,
        width: usize,
        height: usize,
        num: usize,
        made: &ImageComposer1D<ComposeHorizontal>,
    ) -> bool {
        &&& made.total_width == width * num
        &&& made.total_height == height
        &&& made.tile_width == width
        &&& made.tile_height == height
        &&& made.pos_x == 0
        &&& made.pos_y == 0
    }

    fn alloc_equal<I: ImageInfo>(&self, info: &I, num: usize) -> (made: ImageComposer1D<
        ComposeHorizontal,
    >) {
        ImageComposer1D {
            total_width: info.width() * num,
            total_height: info.height(),
            tile_width: info.width(),
            tile_height: info.height(),
            pos_x: 0,
            pos_y: 0,
            phantom: PhantomData,
        }
    }
}

impl AllocatorEqual<ImageComposer1D<ComposeVertical>> for () {
    open spec fn can_alloc_equal(&self, width: usize, height: usize, num: usize) -> bool {
        height * num <= usize::MAX
    }

    /// A column as wide as one tile and as high as `num`.
    open spec fn equal_allocated(
        &self,
        width: usize,
        height: usize,
        num: usize,
        made: &ImageComposer1D<ComposeVertical>,
    ) -> bool {
        &&& made.total_width == width
        &&& made.total_height == height * num
        &&& made.tile_width == width
        &&& made.tile_height == height
        &&& made.pos_x == 0
        &&& made.pos_y == 0
    }

    fn alloc_equal<I: ImageInfo>(&self, info: &I, num: usize) -> (made: ImageComposer1D<
        ComposeVertical,
    >) {
        ImageComposer1D {
            total_width: info.width(),
            total_height: info.height() * num,
            tile_width: info.width(),
            tile_height: info.height(),
            pos_x: 0,
            pos_y: 0,
            phantom: PhantomData,
        }
    }
}

/// How tiles of the given sizes are packed into rows of width `max_width`,
/// after the first `k` of them: what is left of the width of the row, the
/// height of the highest tile of the row, and the height of the rows above.
pub open spec fn packed_rows(sizes: Seq<(usize, usize)>, max_width: int, k: nat) -> (int, int, int)
    decreases k,
{
    if k == 0 {
        (max_width, 0, 0)
    } else {
        let before = packed_rows(sizes, max_width, (k - 1) as nat);
        let (width, height) = sizes[k - 1];
        let left = if before.0 < width {
            max_width
        } else {
            before.0
        };
        let highest = if before.0 < width {
            0
        } else {
            before.1
        };
        let above = if before.0 < width {
            before.2 + before.1
        } else {
            before.2
        };
        (left - width, if highest < height {
            height as int
        } else {
            highest
        }, above)
    }
}

impl AllocatorIter<ImageComposer2D> for usize {
    /// No tile is wider than a row, and the rows are not higher than a
    /// machine can count.
    open spec fn can_alloc_iter(&self, sizes: Seq<(usize, usize)>) -> bool {
        forall|k: nat|
            k <= sizes.len() ==> 0 <= (#[trigger] packed_rows(sizes, *self as int, k)).0
                && packed_rows(sizes, *self as int, k).2 + packed_rows(sizes, *self as int, k).1
                <= usize::MAX
    }

    /// An image of this width and as high as all the rows.
    open spec fn iter_allocated(&self, sizes: Seq<(usize, usize)>, made: &ImageComposer2D) -> bool {
        let rows = packed_rows(sizes, *self as int, sizes.len());
        &&& made.total_width == *self
        &&& made.total_height == rows.2 + rows.1
        &&& made.pos_x == 0
        &&& made.pos_y == 0
        &&& made.max_height == 0
    }

    fn alloc_iter<I: ImageInfo>(&self, infos: &[I]) -> (made: ImageComposer2D) {
        let max_width = *self;
        let mut cur_width = max_width;
        let mut max_height: usize = 0;
        let mut total_height: usize = 0;
        let ghost sizes = sizes_of(infos@);
        let mut k: usize = 0;
        while k < infos.len()
            invariant
                k <= infos.len(),
                max_width == *self,
                sizes == sizes_of(infos@),
                self.can_alloc_iter(sizes),
                packed_rows(sizes, max_width as int, k as nat) == (
                    cur_width as int,
                    max_height as int,
                    total_height as int,
                ),
            decreases infos.len() - k,
        {
            let info = &infos[k];
            proof {
                let after = packed_rows(sizes, max_width as int, (k + 1) as nat);
                assert(after.0 >= 0 && after.2 + after.1 <= usize::MAX);
                assert(sizes[k as int] == (info.spec_width(), info.spec_height()));
            }
            if cur_width < info.width() {
                cur_width = max_width;
                total_height += max_height;
                max_height = 0;
            }
            cur_width -= info.width();
            if max_height < info.height() {
                max_height = info.height();
            }
            k += 1;
        }
        proof {
            let rows = packed_rows(sizes, max_width as int, sizes.len());
            assert(rows.2 + rows.1 <= usize::MAX);
        }
        total_height += max_height;
        ImageComposer2D { total_width: max_width, total_height, pos_x: 0, pos_y: 0, max_height: 0 }
    }
}

/// An allocator that makes a composer of kind `R` and an image as large as
/// what the composer lays out.
pub struct ImageAllocatorComposed<C, A, R> {
    pub composer: C,
    pub image: A,
    pub phantom: PhantomData<R>,
}

impl<C, A, R> ImageAllocatorComposed<C, A, R> {
    pub fn new(composer: C, image: A) -> (a: Self)
        ensures
            a.composer == composer,
            a.image == image,
    {
        Self { composer, image, phantom: PhantomData }
    }
}

impl<C, A, R, M> AllocatorEqual<ImageSourceComposed<R, M>> for ImageAllocatorComposed<
    C,
    A,
    R,
> where C: AllocatorEqual<R>, R: ImageComposer + ImageInfo, M: ImageStorage, A: ImageAllocator<M> {
    open spec fn can_alloc_equal(&self, width: usize, height: usize, num: usize) -> bool {
        &&& self.composer.can_alloc_equal(width, height, num)
        &&& forall|made: R|
            self.composer.equal_allocated(width, height, num, &made)
                ==> #[trigger] self.image.can_allocate(made.spec_width(), made.spec_height())
    }

    /// A new composer with a new image of its size, and no tile placed.
    open spec fn equal_allocated(
        &self,
        width: usize,
        height: usize,
        num: usize,
        made: &ImageSourceComposed<R, M>,
    ) -> bool {
        &&& self.composer.equal_allocated(width, height, num, &made.composer)
        &&& self.image.allocated(
            made.composer.spec_width(),
            made.composer.spec_height(),
            &made.tile.image,
        )
        &&& made.tile.start_x == 0
        &&& made.tile.start_y == 0
        &&& made.tile.tile_width == 0
        &&& made.tile.tile_height == 0
    }

    fn alloc_equal<I: ImageInfo>(&self, info: &I, num: usize) -> (made: ImageSourceComposed<R, M>) {
        let c = self.composer.alloc_equal(info, num);
        let image = self.image.allocate(&c);
        let tile = ImageTile { image, start_x: 0, start_y: 0, tile_width: 0, tile_height: 0 };
        ImageSourceComposed { composer: c, tile }
    }
}

impl<C, A, R, M> AllocatorIter<ImageSourceComposed<R, M>> for ImageAllocatorComposed<
    C,
    A,
    R,
> where C: AllocatorIter<R>, R: ImageComposer + ImageInfo, M: ImageStorage, A: ImageAllocator<M> {
    open spec fn can_alloc_iter(&self, sizes: Seq<(usize, usize)>) -> bool {
        &&& self.composer.can_alloc_iter(sizes)
        &&& forall|made: R|
            self.composer.iter_allocated(sizes, &made) ==> #[trigger] self.image.can_allocate(
                made.spec_width(),
                made.spec_height(),
            )
    }

    /// A new composer with a new image of its size, and no tile placed.
    open spec fn iter_allocated(
        &self,
        sizes: Seq<(usize, usize)>,
        made: &ImageSourceComposed<R, M>,
    ) -> bool {
        &&& self.composer.iter_allocated(sizes, &made.composer)
        &&& self.image.allocated(
            made.composer.spec_width(),
            made.composer.spec_height(),
            &made.tile.image,
        )
        &&& made.tile.start_x == 0
        &&& made.tile.start_y == 0
        &&& made.tile.tile_width == 0
        &&& made.tile.tile_height == 0
    }

    fn alloc_iter<I: ImageInfo>(&self, infos: &[I]) -> (made: ImageSourceComposed<R, M>) {
        let c = self.composer.alloc_iter(infos);
        let image = self.image.allocate(&c);
        let tile = ImageTile { image, start_x: 0, start_y: 0, tile_width: 0, tile_height: 0 };
        ImageSourceComposed { composer: c, tile }
    }
}

/// An allocator of images whose tiles are packed into a row.
pub fn image_allocator_1d_horizontal() -> (a: ImageAllocatorComposed<
    (),
    (),
    ImageComposer1D<ComposeHorizontal>,
>) {
    ImageAllocatorComposed::new((), ())
}

/// An allocator of images whose tiles are packed into a column.
pub fn image_allocator_1d_vertical() -> (a: ImageAllocatorComposed<
    (),
    (),
    ImageComposer1D<ComposeVertical>,
>) {
    ImageAllocatorComposed::new((), ())
}

/// An allocator of images of the given width whose tiles are packed into
/// rows.
pub fn image_allocator_2d(width: usize) -> (a: ImageAllocatorComposed<usize, (), ImageComposer2D>)
    ensures
        a.composer == width,
{
    ImageAllocatorComposed::new(width, ())
}


impl<'a, T: ImageInfo> ImageInfo for &'a mut T {
    open spec fn spec_width(&self) -> usize {
        (**self).spec_width()
    }

    open spec fn spec_height(&self) -> usize {
        (**self).spec_height()
    }

    fn width(&self) -> usize {
        (**self).width()
    }

    fn height(&self) -> usize {
        (**self).height()
    }
}

impl<'a, T: ImageStorage> ImageStorage for &'a mut T {
    open spec fn can_set_pixel(&self, x: usize, y: usize, val: u8) -> bool {
        (**self).can_set_pixel(x, y, val)
    }

    open spec fn pixel_set(&self, post: &Self, x: usize, y: usize, val: u8) -> bool {
        (**self).pixel_set(&**post, x, y, val)
    }

    open spec fn can_set_line(&self, x: usize, y: usize, data: Seq<u8>) -> bool {
        (**self).can_set_line(x, y, data)
    }

    open spec fn line_set(&self, post: &Self, x: usize, y: usize, data: Seq<u8>) -> bool {
        (**self).line_set(&**post, x, y, data)
    }

    open spec fn can_set_image(&self, data: Seq<u8>) -> bool {
        (**self).can_set_image(data)
    }

    open spec fn image_set(&self, post: &Self, data: Seq<u8>) -> bool {
        (**self).image_set(&**post, data)
    }

    fn set_pixel(&mut self, x: usize, y: usize, val: u8) {
        (**self).set_pixel(x, y, val)
    }

    fn set_line(&mut self, x: usize, y: usize, data: &[u8]) {
        (**self).set_line(x, y, data)
    }

    fn set_image(&mut self, data: &[u8]) {
        (**self).set_image(data)
    }
}

/// The four bytes of colour `val` of a palette.
pub open spec fn pal_entry(pal: Seq<u8>, val: u8) -> Seq<u8> {
    pal.subrange(val * 4, val * 4 + 4)
}

/// The colours of a line of palette indices, four bytes each.
pub open spec fn pal_line(pal: Seq<u8>, data: Seq<u8>) -> Seq<u8> {
    Seq::new(4 * data.len(), |k: int| pal[data[k / 4] * 4 + k % 4])
}

/// A buffer of colours, four bytes per pixel, that takes palette indices
/// and stores what the palette holds for them.
pub struct PalImage<'a> {
    pub pal: &'a [u8],
    pub width: usize,
    pub height: usize,
    pub data: Vec<u8>,
}

impl<'a> PalImage<'a> {
    /// The buffer holds exactly four bytes for each pixel.
    pub open spec fn wf(&self) -> bool {
        self.data.len() == self.width * self.height * 4
    }

    /// Where pixel `(x, y)` lies in the buffer, or the buffer's length if it
    /// lies behind its end.
    pub open spec fn pixel_index(&self, x: usize, y: usize) -> int {
        min_of(self.width * y * 4 + x * 4, self.data.len() as int)
    }

    pub fn new(pal: &'a [u8], width: usize, height: usize, data: Vec<u8>) -> (img: Self)
        ensures
            img.pal == pal,
            img.width == width,
            img.height == height,
            img.data == data,
    {
        Self { pal, width, height, data }
    }

    /// A buffer of the given size with every byte zero.
    pub fn allocate(pal: &'a [u8], width: usize, height: usize) -> (img: Self)
        requires
            width * height * 4 <= usize::MAX,
        ensures
            img.pal == pal,
            img.width == width,
            img.height == height,
            img.wf(),
            forall|k: int| 0 <= k < img.data.len() ==> img.data[k] == 0,
    {
        assert(width * height <= usize::MAX) by (nonlinear_arith)
            requires
                width * height * 4 <= usize::MAX,
        ;
        Self { pal, width, height, data: vec![0u8; width * height * 4] }
    }

    fn index(&self, x: usize, y: usize) -> (k: usize)
        requires
            self.width * y * 4 + x * 4 <= usize::MAX,
        ensures
            k == self.pixel_index(x, y),
    {
        assert(self.width * y <= usize::MAX && self.width * y * 4 <= usize::MAX)
            by (nonlinear_arith)
            requires
                self.width * y * 4 + x * 4 <= usize::MAX,
        ;
        let k: usize = self.width * y * 4 + x * 4;
        if k < self.data.len() {
            k
        } else {
            self.data.len()
        }
    }

    /// Writes the colour of `val` to the four bytes at `index`.
    fn put(&mut self, index: usize, val: u8)
        requires
            index + 4 <= old(self).data.len(),
            val * 4 + 4 <= old(self).pal@.len(),
        ensures
            final(self).pal == old(self).pal,
            final(self).width == old(self).width,
            final(self).height == old(self).height,
            final(self).data@ == old(self).data@.subrange(0, index as int) + pal_entry(
                old(self).pal@,
                val,
            ) + old(self).data@.subrange(index + 4, old(self).data.len() as int),
    {
        let pal_index = val as usize * 4;
        let mut k: usize = 0;
        while k < 4
            invariant
                k <= 4,
                pal_index == val * 4,
                index + 4 <= self.data.len(),
                pal_index + 4 <= self.pal@.len(),
                self.pal == old(self).pal,
                self.width == old(self).width,
                self.height == old(self).height,
                self.data.len() == old(self).data.len(),
                forall|m: int| 0 <= m < index ==> self.data[m] == old(self).data[m],
                forall|m: int| index <= m < index + k ==> self.data[m] == self.pal[pal_index + m - index],
                forall|m: int| index + k <= m < self.data.len() ==> self.data[m] == old(self).data[m],
            decreases 4 - k,
        {
            self.data[index + k] = self.pal[pal_index + k];
            k += 1;
        }
        assert(self.data@ =~= old(self).data@.subrange(0, index as int) + pal_entry(
            old(self).pal@,
            val,
        ) + old(self).data@.subrange(index + 4, old(self).data.len() as int));
    }
}

impl<'a> ImageInfo for PalImage<'a> {
    open spec fn spec_width(&self) -> usize {
        self.width
    }

    open spec fn spec_height(&self) -> usize {
        self.height
    }

    fn width(&self) -> usize {
        self.width
    }

    fn height(&self) -> usize {
        self.height
    }
}

impl<'a> ImageStorage for PalImage<'a> {
    /// The pixel lies inside the buffer and the palette has the colour.
    open spec fn can_set_pixel(&self, x: usize, y: usize, val: u8) -> bool {
        &&& self.width * y * 4 + x * 4 + 4 <= self.data.len()
        &&& val * 4 + 4 <= self.pal@.len()
    }

    open spec fn pixel_set(&self, post: &Self, x: usize, y: usize, val: u8) -> bool {
        let at = self.width * y * 4 + x * 4;
        &&& post.pal == self.pal
        &&& post.width == self.width
        &&& post.height == self.height
        &&& post.data@ == self.data@.subrange(0, at) + pal_entry(self.pal@, val)
            + self.data@.subrange(at + 4, self.data.len() as int)
    }

    /// The whole line lies inside the buffer and the palette has every
    /// colour of it.
    open spec fn can_set_line(&self, x: usize, y: usize, data: Seq<u8>) -> bool {
        &&& self.width * y * 4 + x * 4 <= usize::MAX
        &&& self.pixel_index(x, y) + 4 * data.len() <= self.data.len()
        &&& forall|k: int| 0 <= k < data.len() ==> #[trigger] data[k] * 4 + 4 <= self.pal@.len()
    }

    /// The colours of the line replace what was there.
    open spec fn line_set(&self, post: &Self, x: usize, y: usize, data: Seq<u8>) -> bool {
        let at = self.pixel_index(x, y);
        &&& post.pal == self.pal
        &&& post.width == self.width
        &&& post.height == self.height
        &&& post.data@ == self.data@.subrange(0, at) + pal_line(self.pal@, data)
            + self.data@.subrange(at + 4 * data.len(), self.data.len() as int)
    }

    open spec fn can_set_image(&self, data: Seq<u8>) -> bool {
        true
    }

    /// A whole block of indices is not taken: nothing changes.
    open spec fn image_set(&self, post: &Self, data: Seq<u8>) -> bool {
        *post == *self
    }

    fn set_pixel(&mut self, x: usize, y: usize, val: u8) {
        let index = self.index(x, y);
        self.put(index, val);
    }

    fn set_line(&mut self, x: usize, y: usize, data: &[u8]) {
        let index = self.index(x, y);
        let mut i: usize = 0;
        while i < data.len()
            invariant
                i <= data.len(),
                index + 4 * data@.len() <= self.data.len(),
                forall|k: int| 0 <= k < data@.len() ==> #[trigger] data@[k] * 4 + 4 <= self.pal@.len(),
                self.pal == old(self).pal,
                self.width == old(self).width,
                self.height == old(self).height,
                self.data.len() == old(self).data.len(),
                forall|m: int| 0 <= m < index ==> self.data[m] == old(self).data[m],
                forall|m: int|
                    index <= m < index + 4 * i ==> self.data[m] == pal_line(self.pal@, data@)[m
                        - index],
                forall|m: int|
                    index + 4 * i <= m < self.data.len() ==> self.data[m] == old(self).data[m],
            decreases data.len() - i,
        {
            let val = data[i];
            let data_index = index + i * 4;
            let ghost before = self.data@;
            self.put(data_index, val);
            proof {
                assert forall|m: int| index <= m < index + 4 * (i + 1) implies self.data[m]
                    == pal_line(self.pal@, data@)[m - index] by {
                    if m >= data_index {
                        let k = m - index;
                        assert(k / 4 == i && k % 4 == m - data_index);
                    }
                }
            }
            i += 1;
        }
        assert(self.data@ =~= old(self).data@.subrange(0, index as int) + pal_line(
            old(self).pal@,
            data@,
        ) + old(self).data@.subrange(index + 4 * data@.len(), old(self).data.len() as int));
    }

    fn set_image(&mut self, data: &[u8]) {
    }
}

impl<'a> ImageAllocator<PalImage<'a>> for &'a [u8] {
    open spec fn can_allocate(&self, width: usize, height: usize) -> bool {
        width * height * 4 <= usize::MAX
    }

    open spec fn allocated(&self, width: usize, height: usize, made: &PalImage<'a>) -> bool {
        &&& made.pal == *self
        &&& made.width == width
        &&& made.height == height
        &&& made.wf()
        &&& forall|k: int| 0 <= k < made.data.len() ==> made.data[k] == 0
    }

    fn allocate<I: ImageInfo>(&self, info: &I) -> (made: PalImage<'a>) {
        PalImage::allocate(self, info.width(), info.height())
    }
}

/// An allocator of images of colours whose tiles are packed into a column.
pub fn pal_image_allocator_1d_vertical(pal: &[u8]) -> (a: ImageAllocatorComposed<
    (),
    &[u8],
    ImageComposer1D<ComposeVertical>,
>)
    ensures
        a.image == pal,
{
    ImageAllocatorComposed::new((), pal)
}

/// A strategy that lays images over each other, each at its own position,
/// inside a frame.
pub trait LayerComposer {
    type ComposerResult: ImageInfo;

    /// The frame for these layers can be computed.
    spec fn can_compose_layers(&self, layers: Seq<ImageArea>) -> bool;

    /// The frame for these layers.
    spec fn layers_composed(&self, layers: Seq<ImageArea>) -> Self::ComposerResult;

    /// Where the upper left pixel of a layer goes inside the frame.
    spec fn layer_start(&self, cr: &Self::ComposerResult, layer: ImageArea) -> (int, int);

    /// The place of a layer can be computed.
    spec fn can_get_start(&self, cr: &Self::ComposerResult, layer: ImageArea) -> bool;

    fn compose_layers<I: ImagePos + ImageInfo>(&self, images: &[I]) -> (cr: Self::ComposerResult)
        requires
            self.can_compose_layers(areas_of(images@)),
        ensures
            cr == self.layers_composed(areas_of(images@)),
    ;

    fn get_start<I: ImagePos + ImageInfo>(&self, cr: &Self::ComposerResult, img: &I) -> (start: (
        isize,
        isize,
    ))
        requires
            self.can_get_start(cr, area_of(img)),
        ensures
            start.0 == self.layer_start(cr, area_of(img)).0,
            start.1 == self.layer_start(cr, area_of(img)).1,
    ;
}

/// The size and the position of a thing that has both.
pub open spec fn area_of<I: ImagePos + ImageInfo>(img: &I) -> ImageArea {
    ImageArea {
        width: img.spec_width(),
        height: img.spec_height(),
        x: img.spec_pos_x(),
        y: img.spec_pos_y(),
    }
}

/// The sizes and the positions of a list of things that have both.
pub open spec fn areas_of<I: ImagePos + ImageInfo>(images: Seq<I>) -> Seq<ImageArea> {
    Seq::new(images.len(), |k: int| area_of(&images[k]))
}

/// The larger of two numbers.
pub open spec fn max_of(a: int, b: int) -> int {
    if a > b {
        a
    } else {
        b
    }
}

/// The box round the origin and the first `k` layers, each of which hangs
/// from its position to the right and down: its left, right, upper and
/// lower edge.
pub open spec fn box_right_of(layers: Seq<ImageArea>, k: nat) -> (int, int, int, int)
    decreases k,
{
    if k == 0 {
        (0, 0, 0, 0)
    } else {
        let b = box_right_of(layers, (k - 1) as nat);
        let l = layers[k - 1];
        (
            min_of(b.0, l.x as int),
            max_of(b.1, l.width + l.x),
            min_of(b.2, l.y as int),
            max_of(b.3, l.height + l.y),
        )
    }
}

/// The box round the first `k` layers, each of which hangs from its
/// position to the left and down: its left, right, upper and lower edge.
/// The left and the upper edge do not lie behind the origin, the lower edge
/// does not lie before it, and the right edge not before 100 to its left.
pub open spec fn box_left_of(layers: Seq<ImageArea>, k: nat) -> (int, int, int, int)
    decreases k,
{
    if k == 0 {
        (0, -100, 0, 0)
    } else {
        let b = box_left_of(layers, (k - 1) as nat);
        let l = layers[k - 1];
        (
            min_of(b.0, l.x - l.width),
            max_of(b.1, l.x as int),
            min_of(b.2, l.y as int),
            max_of(b.3, l.height + l.y),
        )
    }
}

/// Every layer is small enough for its edges to be computed.
pub open spec fn layers_fit(layers: Seq<ImageArea>) -> bool {
    forall|k: int|
        0 <= k < layers.len() ==> {
            let l = #[trigger] layers[k];
            &&& l.width <= isize::MAX
            &&& l.height <= isize::MAX
            &&& isize::MIN <= l.x - l.width
            &&& l.x + l.width <= isize::MAX
            &&& l.y + l.height <= isize::MAX
        }
}

/// The frame round a box with a margin on every side, and in it the place
/// of the origin.
pub open spec fn framed(b: (int, int, int, int), horizontal: usize, vertical: usize) -> ImageArea {
    ImageArea {
        width: ((b.1 - b.0) + horizontal * 2) as usize,
        height: ((b.3 - b.2) + vertical * 2) as usize,
        x: (-b.0 + horizontal) as isize,
        y: (-b.2 + vertical) as isize,
    }
}

/// The frame round a box can be computed.
pub open spec fn frame_fits(b: (int, int, int, int), horizontal: usize, vertical: usize) -> bool {
    &&& horizontal <= isize::MAX
    &&& vertical <= isize::MAX
    &&& -b.0 + horizontal <= isize::MAX
    &&& -b.2 + vertical <= isize::MAX
    &&& b.1 - b.0 <= isize::MAX
    &&& b.3 - b.2 <= isize::MAX
    &&& (b.1 - b.0) + horizontal * 2 <= usize::MAX
    &&& (b.3 - b.2) + vertical * 2 <= usize::MAX
}

/// Lays out layers that hang from their positions to the right and down,
/// with a margin round them.
pub struct ULCentreComposer {
    pub vertical: usize,
    pub horizontal: usize,
}

impl LayerComposer for ULCentreComposer {
    type ComposerResult = ImageArea;

    open spec fn can_compose_layers(&self, layers: Seq<ImageArea>) -> bool {
        &&& layers_fit(layers)
        &&& frame_fits(box_right_of(layers, layers.len()), self.horizontal, self.vertical)
    }

    open spec fn layers_composed(&self, layers: Seq<ImageArea>) -> ImageArea {
        framed(box_right_of(layers, layers.len()), self.horizontal, self.vertical)
    }

    open spec fn layer_start(&self, cr: &ImageArea, layer: ImageArea) -> (int, int) {
        (cr.x + layer.x, cr.y + layer.y)
    }

    open spec fn can_get_start(&self, cr: &ImageArea, layer: ImageArea) -> bool {
        &&& isize::MIN <= cr.x + layer.x <= isize::MAX
        &&& isize::MIN <= cr.y + layer.y <= isize::MAX
    }

    fn compose_layers<I: ImagePos + ImageInfo>(&self, images: &[I]) -> (cr: ImageArea) {
        let mut left: isize = 0;
        let mut right: isize = 0;
        let mut up: isize = 0;
        let mut down: isize = 0;
        let ghost layers = areas_of(images@);
        let mut k: usize = 0;
        while k < images.len()
            invariant
                k <= images.len(),
                layers == areas_of(images@),
                layers_fit(layers),
                box_right_of(layers, k as nat) == (left as int, right as int, up as int, down as int),
                left <= 0 <= right,
                up <= 0 <= down,
            decreases images.len() - k,
        {
            let image = &images[k];
            proof {
                assert(layers[k as int] == area_of(image));
            }
            let x = image.pos_x();
            let y = image.pos_y();
            let to_right = image.width() as isize + x;
            let to_down = image.height() as isize + y;
            if x < left {
                left = x;
            }
            if to_right > right {
                right = to_right;
            }
            if y < up {
                up = y;
            }
            if to_down > down {
                down = to_down;
            }
            k += 1;
        }
        let x = -left + self.horizontal as isize;
        let y = -up + self.vertical as isize;
        let width = (right - left) as usize + self.horizontal * 2;
        let height = (down - up) as usize + self.vertical * 2;
        ImageArea::new(width, height, x, y)
    }

    fn get_start<I: ImagePos + ImageInfo>(&self, cr: &ImageArea, img: &I) -> (start: (
        isize,
        isize,
    )) {
        (cr.x + img.pos_x(), cr.y + img.pos_y())
    }
}

/// Lays out layers that hang from their positions to the left and down,
/// with a margin round them.
pub struct URCentreComposer {
    pub vertical: usize,
    pub horizontal: usize,
}

impl URCentreComposer {
    /// The box with its right edge not left of its left edge.
    pub open spec fn closed(b: (int, int, int, int)) -> (int, int, int, int) {
        (b.0, max_of(b.1, b.0), b.2, b.3)
    }
}

impl LayerComposer for URCentreComposer {
    type ComposerResult = ImageArea;

    open spec fn can_compose_layers(&self, layers: Seq<ImageArea>) -> bool {
        &&& layers_fit(layers)
        &&& frame_fits(
            Self::closed(box_left_of(layers, layers.len())),
            self.horizontal,
            self.vertical,
        )
    }

    open spec fn layers_composed(&self, layers: Seq<ImageArea>) -> ImageArea {
        framed(Self::closed(box_left_of(layers, layers.len())), self.horizontal, self.vertical)
    }

    open spec fn layer_start(&self, cr: &ImageArea, layer: ImageArea) -> (int, int) {
        (cr.x + layer.x - layer.width, cr.y + layer.y)
    }

    open spec fn can_get_start(&self, cr: &ImageArea, layer: ImageArea) -> bool {
        &&& layer.width <= isize::MAX
        &&& isize::MIN <= cr.x + layer.x <= isize::MAX
        &&& isize::MIN <= cr.x + layer.x - layer.width
        &&& isize::MIN <= cr.y + layer.y <= isize::MAX
    }

    fn compose_layers<I: ImagePos + ImageInfo>(&self, images: &[I]) -> (cr: ImageArea) {
        let mut left: isize = 0;
        let mut right: isize = -100;
        let mut up: isize = 0;
        let mut down: isize = 0;
        let ghost layers = areas_of(images@);
        let mut k: usize = 0;
        while k < images.len()
            invariant
                k <= images.len(),
                layers == areas_of(images@),
                layers_fit(layers),
                box_left_of(layers, k as nat) == (left as int, right as int, up as int, down as int),
                left <= 0,
                -100 <= right,
                up <= 0 <= down,
            decreases images.len() - k,
        {
            let image = &images[k];
            proof {
                assert(layers[k as int] == area_of(image));
            }
            let x = image.pos_x();
            let y = image.pos_y();
            let to_left = x - image.width() as isize;
            let to_down = image.height() as isize + y;
            if to_left < left {
                left = to_left;
            }
            if x > right {
                right = x;
            }
            if y < up {
                up = y;
            }
            if to_down > down {
                down = to_down;
            }
            k += 1;
        }
        if right < left {
            right = left;
        }
        let x = -left + self.horizontal as isize;
        let y = -up + self.vertical as isize;
        let width = (right - left) as usize + self.horizontal * 2;
        let height = (down - up) as usize + self.vertical * 2;
        ImageArea::new(width, height, x, y)
    }

    fn get_start<I: ImagePos + ImageInfo>(&self, cr: &ImageArea, img: &I) -> (start: (
        isize,
        isize,
    )) {
        (cr.x + img.pos_x() - img.width() as isize, cr.y + img.pos_y())
    }
}


/// A source that hands out one and the same storage again and again, each
/// time moved to where the next of a list of layers goes inside a frame.
pub struct LayeredStorageSource<'a, M, M1, C> {
    pub area: ImageArea,
    pub positions: &'a [M],
    /// How many layers are handed out.
    pub next: usize,
    pub img: ImageTile<&'a mut M1>,
    /// Where the storage stands.
    pub last_cords: (isize, isize),
    pub composer: &'a C,
}

impl<'a, M, M1, C> LayeredStorageSource<'a, M, M1, C> where
    M: ImagePos,
    M1: ImageInfo + ImageStorage,
    C: LayerComposer<ComposerResult = ImageArea>,
 {
    /// The storage stands where the source remembers it.
    pub open spec fn wf(&self) -> bool {
        &&& self.img.start_x == self.last_cords.0
        &&& self.img.start_y == self.last_cords.1
    }

    /// The layer of size `width` by `height` at the position that comes
    /// next.
    pub open spec fn next_layer(&self, width: usize, height: usize) -> ImageArea {
        ImageArea {
            width,
            height,
            x: self.positions@[self.next as int].spec_pos_x(),
            y: self.positions@[self.next as int].spec_pos_y(),
        }
    }

    /// Takes room for the frame `area` from `storage` and gets ready to
    /// hand it out once for each of the positions `imgs`.
    pub fn new<CS>(storage: &'a mut CS, area: ImageArea, imgs: &'a [M], composer: &'a C) -> (s:
        Self) where CS: ImageStorageSource<StorageType = M1>
        requires
            old(storage).can_get(area.width, area.height),
            old(storage).has_room(area.width, area.height),
        ensures
            s.area == area,
            s.positions == imgs,
            s.next == 0,
            s.last_cords == (0isize, 0isize),
            s.composer == composer,
            s.img.start_x == 0,
            s.img.start_y == 0,
            s.img.tile_width == 0,
            s.img.tile_height == 0,
            s.wf(),
            old(storage).storage_given(area.width, area.height, &*s.img.image),
    {
        let given = match storage.get_storage(&area) {
            Some(g) => g,
            None => vstd::pervasive::unreached(),
        };
        let img = ImageTile::new(given);
        Self { area, positions: imgs, next: 0, img, last_cords: (0, 0), composer }
    }
}

impl<'a, M, M1, C> ImageStorageSource for LayeredStorageSource<'a, M, M1, C> where
    M: ImagePos,
    M1: ImageInfo + ImageStorage,
    C: LayerComposer<ComposerResult = ImageArea>,
 {
    type StorageType = ImageTile<&'a mut M1>;

    /// The storage stands where the source remembers it, and the place of
    /// the next layer can be computed and lies right of and below the
    /// origin.
    open spec fn can_get(&self, width: usize, height: usize) -> bool {
        &&& self.wf()
        &&& self.has_room(width, height) ==> {
            &&& self.composer.can_get_start(&self.area, self.next_layer(width, height))
            &&& 0 <= self.composer.layer_start(&self.area, self.next_layer(width, height)).0
            &&& 0 <= self.composer.layer_start(&self.area, self.next_layer(width, height)).1
        }
    }

    open spec fn has_room(&self, width: usize, height: usize) -> bool {
        self.next < self.positions@.len()
    }

    /// The storage, moved to the place of the next layer.
    open spec fn storage_given(
        &self,
        width: usize,
        height: usize,
        storage: &ImageTile<&'a mut M1>,
    ) -> bool {
        &&& storage.image == self.img.image
        &&& storage.start_x == self.composer.layer_start(
            &self.area,
            self.next_layer(width, height),
        ).0
        &&& storage.start_y == self.composer.layer_start(
            &self.area,
            self.next_layer(width, height),
        ).1
        &&& storage.tile_width == self.img.tile_width
        &&& storage.tile_height == self.img.tile_height
    }

    open spec fn storage_returned(
        &self,
        width: usize,
        height: usize,
        post: &Self,
        storage: &ImageTile<&'a mut M1>,
    ) -> bool {
        &&& post.area == self.area
        &&& post.positions == self.positions
        &&& post.composer == self.composer
        &&& post.next == self.next + 1
        &&& post.last_cords.0 == self.composer.layer_start(
            &self.area,
            self.next_layer(width, height),
        ).0
        &&& post.last_cords.1 == self.composer.layer_start(
            &self.area,
            self.next_layer(width, height),
        ).1
        &&& post.img == *storage
    }

    open spec fn storage_refused(&self, width: usize, height: usize, post: &Self) -> bool {
        *post == *self
    }

    fn get_storage<I: ImageInfo>(&mut self, info: &I) -> (r: Option<
        &mut ImageTile<&'a mut M1>,
    >) {
        if self.next < self.positions.len() {
            let i = &self.positions[self.next];
            self.next += 1;
            self.img.move_tile(-self.last_cords.0, -self.last_cords.1);
            let composed_image = ImageArea::from_image_and_pos(info, i);
            assert(area_of(&composed_image) == old(self).next_layer(
                info.spec_width(),
                info.spec_height(),
            ));
            self.last_cords = self.composer.get_start(&self.area, &composed_image);
            self.img.move_tile(self.last_cords.0, self.last_cords.1);
            Some(&mut self.img)
        } else {
            None
        }
    }
}

} // verus!
