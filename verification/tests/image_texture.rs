use path_tracer::color::Rgb;
use path_tracer::image_texture::ImageTexture;

fn two_by_two() -> ImageTexture {
    let data: Vec<u8> = vec![1, 2, 3, 4, 5, 6, 7, 8, 9, 10, 11, 12];
    ImageTexture::new(data, 2, 2).unwrap()
}

#[test]
fn new_accepts_data_of_the_right_size() {
    let t = two_by_two();
    assert_eq!(t.width, 2);
    assert_eq!(t.height, 2);
    assert_eq!(t.bytes_per_scanline, 6);
    assert_eq!(t.img_data.len(), 12);
}

#[test]
fn new_refuses_data_of_another_size() {
    assert!(ImageTexture::new(vec![0; 11], 2, 2).is_none());
    assert!(ImageTexture::new(vec![0; 13], 2, 2).is_none());
    assert!(ImageTexture::new(Vec::new(), 1, 1).is_none());
}

#[test]
fn new_accepts_an_empty_image() {
    assert!(ImageTexture::new(Vec::new(), 0, 5).is_some());
    assert!(ImageTexture::new(Vec::new(), 5, 0).is_some());
}

#[test]
fn new_refuses_a_width_whose_row_has_no_length() {
    assert!(ImageTexture::new(Vec::new(), u32::MAX, 0).is_none());
}

#[test]
fn texel_reads_row_major_rgb() {
    let t = two_by_two();
    assert_eq!(t.texel(0, 0), Rgb { r: 1, g: 2, b: 3 });
    assert_eq!(t.texel(1, 0), Rgb { r: 4, g: 5, b: 6 });
    assert_eq!(t.texel(0, 1), Rgb { r: 7, g: 8, b: 9 });
    assert_eq!(t.texel(1, 1), Rgb { r: 10, g: 11, b: 12 });
}

#[test]
fn texel_beyond_the_edge_reads_the_last() {
    let t = two_by_two();
    assert_eq!(t.texel(2, 0), Rgb { r: 4, g: 5, b: 6 });
    assert_eq!(t.texel(0, 2), Rgb { r: 7, g: 8, b: 9 });
    assert_eq!(t.texel(i32::MAX, i32::MAX), Rgb { r: 10, g: 11, b: 12 });
}
