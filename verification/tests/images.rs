use faithful::pop::types::{
    image_allocator_1d_horizontal, image_allocator_1d_vertical, image_allocator_2d,
    pal_image_allocator_1d_vertical, AllocatorEqual, AllocatorIter, ComposeHorizontal,
    ComposeVertical, Image, ImageAllocator, ImageArea, ImageComposer, ImageComposer1D,
    ImageComposer2D, ImageInfo, ImagePos, ImageSourceComposed, ImageStorage, ImageStorageSource,
    ImageTile, ImageTileSource, LayerComposer, LayeredStorageSource, PalImage, TiledComposer,
    ULCentreComposer, URCentreComposer,
};

#[test]
fn image_is_allocated_black() {
    let image = Image::allocate(3, 2);
    assert_eq!(image.width(), 3);
    assert_eq!(image.height(), 2);
    assert_eq!(image.data, vec![0u8; 6]);
    let image = Image::new(2, 2, vec![1, 2, 3, 4]);
    assert_eq!(image.width, 2);
    assert_eq!(image.height, 2);
    assert_eq!(image.data, vec![1, 2, 3, 4]);
}

#[test]
fn image_sets_pixels_row_by_row() {
    let mut image = Image::allocate(3, 2);
    image.set_pixel(0, 0, 1);
    image.set_pixel(2, 0, 2);
    image.set_pixel(1, 1, 3);
    assert_eq!(image.data, vec![1, 0, 2, 0, 3, 0]);
}

#[test]
fn image_cuts_a_line_at_the_end_of_the_row() {
    let mut image = Image::allocate(4, 2);
    image.set_line(1, 0, &[7, 8]);
    assert_eq!(image.data, vec![0, 7, 8, 0, 0, 0, 0, 0]);
    image.set_line(2, 1, &[1, 2, 3, 4, 5]);
    assert_eq!(image.data, vec![0, 7, 8, 0, 0, 0, 1, 2]);
    image.set_line(4, 0, &[9]);
    assert_eq!(image.data, vec![0, 7, 8, 0, 0, 0, 1, 2]);
}

#[test]
fn image_takes_a_whole_block() {
    let mut image = Image::allocate(2, 2);
    image.set_image(&[1, 2, 3, 4, 5, 6]);
    assert_eq!(image.data, vec![1, 2, 3, 4]);
}

#[test]
fn tile_moves_writes_by_its_origin() {
    let mut tile = ImageTile::new(Image::allocate(4, 3));
    assert_eq!(tile.width(), 0);
    assert_eq!(tile.height(), 0);
    tile.move_tile(1, 1);
    tile.tile_width = 2;
    tile.tile_height = 2;
    assert_eq!(tile.width(), 2);
    assert_eq!(tile.height(), 2);
    tile.set_pixel(0, 0, 5);
    tile.set_pixel(1, 1, 6);
    tile.set_line(0, 1, &[9]);
    let image = tile.get_image();
    assert_eq!(image.data, vec![0, 0, 0, 0, 0, 5, 0, 0, 0, 9, 6, 0]);
}

#[test]
fn tile_takes_a_block_line_by_line() {
    let mut tile = ImageTile::new(Image::allocate(4, 4));
    tile.move_tile(2, 1);
    tile.move_tile(-1, 0);
    tile.tile_width = 2;
    tile.tile_height = 3;
    tile.set_image(&[1, 2, 3, 4, 5, 6]);
    let image = tile.get_image();
    assert_eq!(image.data, vec![0, 0, 0, 0, 0, 1, 2, 0, 0, 3, 4, 0, 0, 5, 6, 0]);
}

#[test]
fn tiled_composer_places_tiles_on_a_grid() {
    let mut composer = TiledComposer::new(3, 2, 8, 4);
    let mut tile = ImageTile::new(Image::allocate(24, 8));
    assert!(composer.set_tile(&mut tile, 2, 1));
    assert_eq!(tile.start_x, 16);
    assert_eq!(tile.start_y, 4);
    assert_eq!(tile.tile_width, 8);
    assert_eq!(tile.tile_height, 4);
    assert!(!composer.set_tile(&mut tile, 3, 0));
    assert!(!composer.set_tile(&mut tile, 0, 2));
    assert_eq!(tile.start_x, 16);
    assert_eq!(tile.start_y, 4);
}

#[test]
fn tile_source_hands_out_the_tile_of_a_cell() {
    let composer = TiledComposer::new(2, 2, 2, 2);
    let mut source = ImageSourceComposed::new(composer, Image::allocate(4, 4));
    source.next_tile(1, 0).set_pixel(0, 1, 7);
    source.next_tile(0, 1).set_pixel(1, 0, 8);
    let image = source.get_image();
    assert_eq!(image.data, vec![0, 0, 0, 0, 0, 0, 7, 0, 0, 8, 0, 0, 0, 0, 0, 0]);
}

#[test]
fn horizontal_composer_packs_a_row() {
    let allocator = image_allocator_1d_horizontal();
    let mut source: ImageSourceComposed<ImageComposer1D<ComposeHorizontal>, Image> =
        allocator.alloc_equal(&(2usize, 2usize), 3);
    assert_eq!(source.composer.width(), 6);
    assert_eq!(source.composer.height(), 2);
    assert_eq!(source.tile.image.data.len(), 12);
    for k in 0..3u8 {
        let tile = source.get_storage(&(2usize, 2usize)).unwrap();
        tile.set_image(&[k + 1, k + 1, k + 1, k + 1]);
    }
    assert!(source.get_storage(&(2usize, 2usize)).is_none());
    assert!(source.get_storage(&(0usize, 3usize)).is_none());
    let image = source.get_image();
    assert_eq!(image.data, vec![1, 1, 2, 2, 3, 3, 1, 1, 2, 2, 3, 3]);
}

#[test]
fn vertical_composer_packs_a_column() {
    let allocator = image_allocator_1d_vertical();
    let mut source: ImageSourceComposed<ImageComposer1D<ComposeVertical>, Image> =
        allocator.alloc_equal(&(2usize, 1usize), 2);
    assert_eq!(source.composer.width(), 2);
    assert_eq!(source.composer.height(), 2);
    source.get_storage(&(2usize, 1usize)).unwrap().set_image(&[1, 2]);
    source.get_storage(&(2usize, 1usize)).unwrap().set_image(&[3, 4]);
    assert!(source.get_storage(&(2usize, 1usize)).is_none());
    assert!(source.get_storage(&(3usize, 0usize)).is_none());
    assert_eq!(source.get_image().data, vec![1, 2, 3, 4]);
}

#[test]
fn composer_1d_says_where_the_next_tile_goes() {
    let mut composer: ImageComposer1D<ComposeHorizontal> = ().alloc_equal(&(4usize, 2usize), 2);
    let mut tile = ImageTile::new(Image::allocate(8, 2));
    assert!(composer.compose(&mut tile, &(3usize, 1usize)));
    assert_eq!((tile.start_x, tile.start_y, tile.tile_width, tile.tile_height), (0, 0, 3, 1));
    assert_eq!(composer.pos_x, 4);
    assert!(!composer.compose(&mut tile, &(5usize, 1usize)));
    assert!(!composer.compose(&mut tile, &(1usize, 3usize)));
    assert_eq!(composer.pos_x, 4);
    assert!(composer.compose(&mut tile, &(4usize, 2usize)));
    assert_eq!((tile.start_x, tile.start_y, tile.tile_width, tile.tile_height), (4, 0, 4, 2));
    assert_eq!(composer.pos_x, 8);
}

#[test]
fn composer_2d_starts_a_new_row_when_a_tile_does_not_fit() {
    let sizes = [(3usize, 2usize), (2, 5), (4, 1), (1, 1), (5, 2)];
    let mut composer: ImageComposer2D = 5usize.alloc_iter(&sizes);
    assert_eq!(composer.width(), 5);
    // Rows: 3 + 2 wide and 5 high; 4 + 1 wide and 1 high; 5 wide and 2 high.
    assert_eq!(composer.height(), 8);
    let mut tile = ImageTile::new(Image::allocate(5, 8));
    let mut places = Vec::new();
    for size in sizes.iter() {
        assert!(composer.compose(&mut tile, size));
        places.push((tile.start_x, tile.start_y, tile.tile_width, tile.tile_height));
    }
    assert_eq!(
        places,
        vec![(0, 0, 3, 2), (3, 0, 2, 5), (0, 5, 4, 1), (4, 5, 1, 1), (0, 6, 5, 2)]
    );
    // A row may start at the lower edge of the image, not below it.
    assert!(composer.compose(&mut tile, &(5usize, 1usize)));
    assert_eq!((tile.start_x, tile.start_y), (0, 8));
    assert!(!composer.compose(&mut tile, &(5usize, 1usize)));
    assert_eq!((tile.start_x, tile.start_y), (0, 8));
}

#[test]
fn allocator_2d_makes_an_image_for_all_the_rows() {
    let allocator = image_allocator_2d(4);
    let sizes = [(2usize, 2usize), (2, 1), (3, 3)];
    let mut source: ImageSourceComposed<ImageComposer2D, Image> = allocator.alloc_iter(&sizes);
    assert_eq!(source.tile.image.width, 4);
    assert_eq!(source.tile.image.height, 5);
    source.get_storage(&sizes[0]).unwrap().set_image(&[1, 1, 1, 1]);
    source.get_storage(&sizes[1]).unwrap().set_image(&[2, 2]);
    source.get_storage(&sizes[2]).unwrap().set_image(&[3, 3, 3, 3, 3, 3, 3, 3, 3]);
    assert_eq!(
        source.get_image().data,
        vec![1, 1, 2, 2, 1, 1, 0, 0, 3, 3, 3, 0, 3, 3, 3, 0, 3, 3, 3, 0]
    );
}

#[test]
fn list_of_images_grows_by_one_for_each_storage() {
    let mut images: Vec<Image> = Vec::new();
    images.get_storage(&(2usize, 1usize)).unwrap().set_pixel(1, 0, 4);
    images.get_storage(&(1usize, 3usize)).unwrap().set_pixel(0, 2, 5);
    assert_eq!(images.len(), 2);
    assert_eq!(images[0].data, vec![0, 4]);
    assert_eq!(images[1].data, vec![0, 0, 5]);
    let made: Image = ().allocate(&(3usize, 3usize));
    assert_eq!(made.data.len(), 9);
}

#[test]
fn palette_image_stores_colours() {
    let pal: Vec<u8> = (0..32u8).collect();
    let mut image = PalImage::allocate(&pal, 2, 2);
    assert_eq!(image.width(), 2);
    assert_eq!(image.height(), 2);
    assert_eq!(image.data.len(), 16);
    image.set_pixel(1, 0, 3);
    assert_eq!(&image.data[0..8], &[0, 0, 0, 0, 12, 13, 14, 15]);
    image.set_line(0, 1, &[7, 1]);
    assert_eq!(&image.data[8..16], &[28, 29, 30, 31, 4, 5, 6, 7]);
    image.set_image(&[1, 1, 1, 1]);
    assert_eq!(&image.data[0..8], &[0, 0, 0, 0, 12, 13, 14, 15]);
    let other = PalImage::new(&pal, 1, 1, vec![9, 9, 9, 9]);
    assert_eq!(other.data, vec![9, 9, 9, 9]);
}

#[test]
fn palette_allocator_makes_a_column_of_colours() {
    let pal: Vec<u8> = (0..16u8).collect();
    let allocator = pal_image_allocator_1d_vertical(&pal);
    let mut source: ImageSourceComposed<ImageComposer1D<ComposeVertical>, PalImage> =
        allocator.alloc_equal(&(1usize, 1usize), 2);
    source.get_storage(&(1usize, 1usize)).unwrap().set_pixel(0, 0, 2);
    source.get_storage(&(1usize, 1usize)).unwrap().set_pixel(0, 0, 3);
    assert_eq!(source.get_image().data, vec![8, 9, 10, 11, 12, 13, 14, 15]);
}

#[test]
fn area_takes_size_and_position() {
    let area = ImageArea::new(3, 4, -1, 2);
    assert_eq!((area.width(), area.height(), area.pos_x(), area.pos_y()), (3, 4, -1, 2));
    let a = ImageArea::from_image(&(5usize, 6usize), 7, 8);
    assert_eq!((a.width, a.height, a.x, a.y), (5, 6, 7, 8));
    let a = ImageArea::from_pos(&(-3isize, 9isize), 1, 2);
    assert_eq!((a.width, a.height, a.x, a.y), (1, 2, -3, 9));
    let a = ImageArea::from_image_and_pos(&(5usize, 6usize), &(-3isize, 9isize));
    assert_eq!((a.width, a.height, a.x, a.y), (5, 6, -3, 9));
    let a = ImageArea::from_image_pos(&area);
    assert_eq!((a.width, a.height, a.x, a.y), (3, 4, -1, 2));
}

#[test]
fn upper_left_composer_frames_its_layers() {
    let composer = ULCentreComposer { vertical: 5, horizontal: 3 };
    let layers = [ImageArea::new(10, 4, -2, 1), ImageArea::new(3, 8, 4, -6)];
    let frame = composer.compose_layers(&layers);
    // Left -2, right 8, up -6, down 5.
    assert_eq!((frame.width, frame.height), (10 + 6, 11 + 10));
    assert_eq!((frame.x, frame.y), (2 + 3, 6 + 5));
    assert_eq!(composer.get_start(&frame, &layers[0]), (3, 12));
    assert_eq!(composer.get_start(&frame, &layers[1]), (9, 5));
    let none: [ImageArea; 0] = [];
    let frame = composer.compose_layers(&none);
    assert_eq!((frame.width, frame.height, frame.x, frame.y), (6, 10, 3, 5));
}

#[test]
fn upper_right_composer_frames_its_layers() {
    let composer = URCentreComposer { vertical: 1, horizontal: 2 };
    let layers = [ImageArea::new(10, 4, 3, 1), ImageArea::new(3, 8, -1, -6)];
    let frame = composer.compose_layers(&layers);
    // Left -7, right 3, up -6, down 5.
    assert_eq!((frame.width, frame.height), (10 + 4, 11 + 2));
    assert_eq!((frame.x, frame.y), (7 + 2, 6 + 1));
    assert_eq!(composer.get_start(&frame, &layers[0]), (2, 8));
    assert_eq!(composer.get_start(&frame, &layers[1]), (5, 1));
    // Without layers the right edge is pulled up to the left edge.
    let none: [ImageArea; 0] = [];
    let frame = composer.compose_layers(&none);
    assert_eq!((frame.width, frame.height, frame.x, frame.y), (4, 2, 2, 1));
}

#[test]
fn layered_source_moves_one_storage_from_layer_to_layer() {
    let composer = ULCentreComposer { vertical: 1, horizontal: 1 };
    let layers = [ImageArea::new(2, 1, 0, 0), ImageArea::new(1, 2, 2, 1)];
    let frame = composer.compose_layers(&layers);
    assert_eq!((frame.width, frame.height, frame.x, frame.y), (5, 5, 1, 1));
    let mut images: Vec<Image> = Vec::new();
    {
        let positions = [(0isize, 0isize), (2, 1)];
        let mut layered = LayeredStorageSource::new(&mut images, frame, &positions, &composer);
        layered.get_storage(&(2usize, 1usize)).unwrap().set_line(0, 0, &[1, 2]);
        layered.get_storage(&(1usize, 2usize)).unwrap().set_pixel(0, 1, 3);
        assert!(layered.get_storage(&(1usize, 1usize)).is_none());
    }
    assert_eq!(images.len(), 1);
    let mut expected = vec![0u8; 25];
    expected[1 * 5 + 1] = 1;
    expected[1 * 5 + 2] = 2;
    expected[3 * 5 + 3] = 3;
    assert_eq!(images[0].data, expected);
}
