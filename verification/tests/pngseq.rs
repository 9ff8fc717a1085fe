use icon_pie::encode::{png_file_name, png_sequence, PngFile};
use icon_pie::eval::Pixmap;
use icon_pie::Size;

#[test]
fn member_names_follow_the_dimensions() {
    assert_eq!(png_file_name(16, 16), "16.png");
    assert_eq!(png_file_name(16, 32), "16x32.png");
    assert_eq!(png_file_name(1, 1), "1.png");
    assert_eq!(png_file_name(100, 7), "100x7.png");
}

#[test]
fn one_pixel_sequence_encodes_to_a_png() {
    let img = Pixmap { width: 1, height: 1, data: vec![255, 0, 0, 255] };
    let images = vec![(Size { w: 1, h: 1 }, img)];
    let files: Vec<PngFile> = png_sequence(&images);
    assert_eq!(files.len(), 1);
    assert_eq!(files[0].name, "1.png");
    // a real PNG stream, not the raw pixels handed back
    assert!(files[0].data.len() > 4);
    assert_eq!(&files[0].data[..4], &[137, 80, 78, 71]);
}

#[test]
fn encoded_pixels_survive_a_decode() {
    // two rows: red above blue; the encoder emits rows bottom-up, so the
    // decoded image comes back vertically flipped
    let img = Pixmap {
        width: 1,
        height: 2,
        data: vec![255, 0, 0, 255, 0, 0, 255, 255],
    };
    let images = vec![(Size { w: 1, h: 2 }, img)];
    let files = png_sequence(&images);
    assert_eq!(files[0].name, "1x2.png");
    let decoded = image::load_from_memory(&files[0].data).unwrap().to_rgba8();
    assert_eq!(decoded.dimensions(), (1, 2));
    assert_eq!(decoded.get_pixel(0, 0).0, [0, 0, 255, 255]);
    assert_eq!(decoded.get_pixel(0, 1).0, [255, 0, 0, 255]);
}

#[test]
fn every_member_is_named_and_encoded() {
    let a = Pixmap { width: 2, height: 2, data: vec![9; 16] };
    let b = Pixmap { width: 3, height: 1, data: vec![7; 12] };
    let images = vec![(Size { w: 2, h: 2 }, a), (Size { w: 3, h: 1 }, b)];
    let files = png_sequence(&images);
    assert_eq!(files.len(), 2);
    assert_eq!(files[0].name, "2.png");
    assert_eq!(files[1].name, "3x1.png");
    assert!(files.iter().all(|f| f.data.starts_with(&[137, 80, 78, 71])));
}
