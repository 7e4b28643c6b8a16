use path_tracer::color::Rgb;
use path_tracer::render::{assemble, partition, process_block, ImageBlockInfo};

fn bands(blocks: &[ImageBlockInfo]) -> Vec<(u32, u32)> {
    blocks.iter().map(|b| (b.start_row, b.end_row)).collect()
}

fn shade(i: u32, j: u32) -> Rgb {
    Rgb { r: i as u8, g: j as u8, b: (i + j) as u8 }
}

fn rendered(start_row: u32, end_row: u32, width: u32, height: u32) -> ImageBlockInfo {
    let block = ImageBlockInfo {
        start_row,
        end_row,
        image_height: height,
        image_width: width,
        spp: 1,
        max_depth: 1,
        image_block: Vec::new(),
    };
    process_block(block, &shade)
}

#[test]
fn partition_shares_rows_evenly() {
    let blocks = partition(800, 800, 1000, 25, 10);
    assert_eq!(blocks.len(), 10);
    for (i, b) in blocks.iter().enumerate() {
        assert_eq!(b.start_row, 80 * i as u32);
        assert_eq!(b.end_row, 80 * (i as u32 + 1));
        assert_eq!(b.image_height, 800);
        assert_eq!(b.image_width, 800);
        assert_eq!(b.spp, 1000);
        assert_eq!(b.max_depth, 25);
        assert!(b.image_block.is_empty());
    }
}

#[test]
fn partition_gives_the_rest_to_the_last_band() {
    assert_eq!(bands(&partition(10, 4, 1, 1, 3)), vec![(0, 3), (3, 6), (6, 10)]);
    assert_eq!(bands(&partition(7, 4, 1, 1, 1)), vec![(0, 7)]);
    assert_eq!(bands(&partition(803, 4, 1, 1, 10))[9], (720, 803));
}

#[test]
fn partition_with_more_workers_than_rows() {
    assert_eq!(bands(&partition(2, 4, 1, 1, 4)), vec![(0, 0), (0, 0), (0, 0), (0, 2)]);
    assert_eq!(bands(&partition(0, 4, 1, 1, 2)), vec![(0, 0), (0, 0)]);
}

#[test]
fn partition_covers_every_row_once() {
    for (height, workers) in [(1u32, 1u32), (5, 2), (17, 4), (100, 7), (u32::MAX, 3)] {
        let blocks = partition(height, 1, 1, 1, workers);
        assert_eq!(blocks[0].start_row, 0);
        for w in blocks.windows(2) {
            assert_eq!(w[0].end_row, w[1].start_row);
        }
        assert_eq!(blocks[blocks.len() - 1].end_row, height);
    }
}

#[test]
fn process_block_renders_its_rows_in_order() {
    let done = rendered(2, 5, 4, 10);
    assert_eq!((done.start_row, done.end_row), (2, 5));
    assert_eq!((done.image_height, done.image_width, done.spp, done.max_depth), (10, 4, 1, 1));
    assert_eq!(done.image_block.len(), 3);
    for (y, row) in done.image_block.iter().enumerate() {
        assert_eq!(row.len(), 4);
        for (x, p) in row.iter().enumerate() {
            assert_eq!(*p, shade(x as u32, 2 + y as u32));
        }
    }
}

#[test]
fn process_block_of_an_empty_band_renders_nothing() {
    let calls = std::cell::Cell::new(0);
    let count = |_i: u32, _j: u32| {
        calls.set(calls.get() + 1);
        Rgb { r: 0, g: 0, b: 0 }
    };
    let block = ImageBlockInfo {
        start_row: 3,
        end_row: 3,
        image_height: 10,
        image_width: 4,
        spp: 1,
        max_depth: 1,
        image_block: Vec::new(),
    };
    let done = process_block(block, &count);
    assert!(done.image_block.is_empty());
    assert_eq!(calls.get(), 0);
}

#[test]
fn process_block_appends_to_what_the_band_holds() {
    let first = rendered(0, 1, 2, 4);
    let kept = first.image_block[0].clone();
    let again = process_block(first, &|_i: u32, _j: u32| Rgb { r: 9, g: 9, b: 9 });
    assert_eq!(again.image_block.len(), 2);
    assert_eq!(again.image_block[0], kept);
    assert_eq!(again.image_block[1], vec![Rgb { r: 9, g: 9, b: 9 }; 2]);
}

#[test]
fn assemble_places_each_band_at_its_rows() {
    let blocks = vec![rendered(0, 2, 3, 5), rendered(2, 5, 3, 5)];
    let image = assemble(&blocks, 3, 5);
    assert_eq!(image.len(), 5);
    for (j, row) in image.iter().enumerate() {
        assert_eq!(row.len(), 3);
        for (i, p) in row.iter().enumerate() {
            assert_eq!(*p, shade(i as u32, j as u32));
        }
    }
}

#[test]
fn assemble_does_not_depend_on_the_order_of_arrival() {
    let parts = partition(11, 3, 1, 1, 4);
    let blocks: Vec<ImageBlockInfo> = parts.into_iter().map(|b| process_block(b, &shade)).collect();
    let in_order = assemble(&blocks, 3, 11);
    let mut shuffled = blocks;
    shuffled.reverse();
    shuffled.swap(0, 2);
    assert_eq!(assemble(&shuffled, 3, 11), in_order);
    for (j, row) in in_order.iter().enumerate() {
        for (i, p) in row.iter().enumerate() {
            assert_eq!(*p, shade(i as u32, j as u32));
        }
    }
}

#[test]
fn assemble_leaves_uncovered_rows_black() {
    let blocks = vec![rendered(1, 2, 2, 3)];
    let image = assemble(&blocks, 2, 3);
    let black = Rgb { r: 0, g: 0, b: 0 };
    assert_eq!(image[0], vec![black; 2]);
    assert_eq!(image[1], vec![shade(0, 1), shade(1, 1)]);
    assert_eq!(image[2], vec![black; 2]);
    assert_eq!(assemble(&Vec::new(), 2, 2), vec![vec![black; 2]; 2]);
}

#[test]
fn assemble_lets_the_later_of_two_overlapping_bands_stand() {
    let white = |_i: u32, _j: u32| Rgb { r: 255, g: 255, b: 255 };
    let mut late = ImageBlockInfo {
        start_row: 1,
        end_row: 2,
        image_height: 3,
        image_width: 2,
        spp: 1,
        max_depth: 1,
        image_block: Vec::new(),
    };
    late = process_block(late, &white);
    let blocks = vec![rendered(0, 3, 2, 3), late];
    let image = assemble(&blocks, 2, 3);
    assert_eq!(image[0], vec![shade(0, 0), shade(1, 0)]);
    assert_eq!(image[1], vec![Rgb { r: 255, g: 255, b: 255 }; 2]);
    assert_eq!(image[2], vec![shade(0, 2), shade(1, 2)]);
}
