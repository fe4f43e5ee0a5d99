use screenshot::pixels::{
    bgr_to_opaque_rgba, bgr_to_rgb, clamp_pixel_box, Bgr8, RgbaFrame,
};

fn frame(width: u32, height: u32) -> RgbaFrame {
    let mut pixels = Vec::new();
    for i in 0..(width * height) {
        pixels.extend_from_slice(&[i as u8, 0, 0, 255]);
    }
    RgbaFrame::from_rgba(width, height, pixels).unwrap()
}

#[test]
fn from_rgba_rejects_wrong_length() {
    assert!(RgbaFrame::from_rgba(2, 2, vec![0; 15]).is_none());
    assert!(RgbaFrame::from_rgba(2, 2, vec![0; 16]).is_some());
}

#[test]
fn pixel_reads_row_major() {
    let f = frame(3, 2);
    assert_eq!(f.pixel(1, 1), [4, 0, 0, 255]);
    assert_eq!(f.pixel(2, 0), [2, 0, 0, 255]);
}

#[test]
fn put_pixel_changes_only_that_pixel() {
    let mut f = frame(2, 2);
    f.put_pixel(1, 0, [9, 8, 7, 6]);
    assert_eq!(f.pixel(1, 0), [9, 8, 7, 6]);
    assert_eq!(f.pixel(0, 0), [0, 0, 0, 255]);
    assert_eq!(f.pixel(0, 1), [2, 0, 0, 255]);
}

#[test]
fn crop_takes_sub_rectangle() {
    let f = frame(4, 3);
    let c = f.crop(1, 1, 2, 2);
    assert_eq!((c.width, c.height), (2, 2));
    assert_eq!(c.pixel(0, 0), [5, 0, 0, 255]);
    assert_eq!(c.pixel(1, 1), [10, 0, 0, 255]);
}

#[test]
fn crop_is_clamped_to_frame() {
    let f = frame(4, 3);
    let c = f.crop(3, 2, 10, 10);
    assert_eq!((c.width, c.height), (1, 1));
    assert_eq!(c.pixel(0, 0), [11, 0, 0, 255]);
    let empty = f.crop(9, 9, 2, 2);
    assert_eq!((empty.width, empty.height), (0, 0));
}

#[test]
fn clamp_pixel_box_clips_to_image() {
    assert_eq!(clamp_pixel_box(2, 3, 50, 60, 10, 20), Some((2, 3, 8, 17)));
    assert_eq!(clamp_pixel_box(5, 5, 5, 9, 10, 10), None);
    assert_eq!(clamp_pixel_box(12, 0, 15, 4, 10, 10), None);
}

#[test]
fn paint_disc_fills_radius_one_cross() {
    let mut f = RgbaFrame::from_rgba(3, 3, vec![0; 36]).unwrap();
    f.paint_disc(1, 1, 1, [1, 2, 3, 4]);
    let painted: Vec<bool> = (0..3)
        .flat_map(|y| (0..3).map(move |x| (x, y)))
        .map(|(x, y)| f.pixel(x, y) == [1, 2, 3, 4])
        .collect();
    assert_eq!(
        painted,
        vec![false, true, false, true, true, true, false, true, false]
    );
}

#[test]
fn paint_disc_clips_at_frame_border() {
    let mut f = RgbaFrame::from_rgba(2, 2, vec![0; 16]).unwrap();
    f.paint_disc(-1, -1, 2, [7, 7, 7, 7]);
    assert_eq!(f.pixel(0, 0), [7, 7, 7, 7]);
    assert_eq!(f.pixel(1, 0), [0, 0, 0, 0]);
    assert_eq!(f.pixel(1, 1), [0, 0, 0, 0]);
}

#[test]
fn paint_disc_with_negative_radius_paints_nothing() {
    let mut f = RgbaFrame::from_rgba(2, 2, vec![0; 16]).unwrap();
    f.paint_disc(0, 0, -1, [7, 7, 7, 7]);
    assert_eq!(f.pixels, vec![0; 16]);
}

#[test]
fn png_encoding_round_trips_through_image() {
    let f = frame(3, 2);
    let expected = f.pixels.clone();
    let png = f.into_png();
    assert_eq!(&png[..8], &[137, 80, 78, 71, 13, 10, 26, 10]);
    let decoded = image::load_from_memory_with_format(&png, image::ImageFormat::Png)
        .unwrap()
        .to_rgba8();
    assert_eq!(decoded.dimensions(), (3, 2));
    assert_eq!(decoded.into_raw(), expected);
}

#[test]
fn x11_pixels_become_rgb_and_opaque_rgba() {
    let pixels = vec![Bgr8 { b: 1, g: 2, r: 3, a: 0 }, Bgr8 { b: 4, g: 5, r: 6, a: 9 }];
    assert_eq!(bgr_to_rgb(&pixels), vec![3, 2, 1, 6, 5, 4]);
    assert_eq!(bgr_to_opaque_rgba(&pixels), vec![3, 2, 1, 255, 6, 5, 4, 255]);
}
