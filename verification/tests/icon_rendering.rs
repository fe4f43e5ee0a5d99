use screenshot::icons::{icon_frame, render_icon};

#[test]
fn svg_is_rendered_at_its_own_size() {
    let svg = br##"<svg xmlns="http://www.w3.org/2000/svg" width="3" height="2"><rect x="0" y="0" width="3" height="2" fill="#ff0000"/></svg>"##;
    let frame = render_icon(svg).expect("a valid SVG renders");
    assert_eq!(frame.width, 3);
    assert_eq!(frame.height, 2);
    assert_eq!(frame.pixels.len(), 3 * 2 * 4);
    for pixel in frame.pixels.chunks(4) {
        assert_eq!(pixel, &[255, 0, 0, 255]);
    }
}

#[test]
fn transparent_background_stays_transparent() {
    let svg = br##"<svg xmlns="http://www.w3.org/2000/svg" width="2" height="1"><rect x="0" y="0" width="1" height="1" fill="#00ff00"/></svg>"##;
    let frame = render_icon(svg).expect("a valid SVG renders");
    assert_eq!(frame.pixels, vec![0, 255, 0, 255, 0, 0, 0, 0]);
}

#[test]
fn malformed_svg_gives_no_icon() {
    assert!(render_icon(b"not an svg").is_none());
    assert!(render_icon(b"").is_none());
}

#[test]
fn icon_frame_checks_the_byte_count() {
    let frame = icon_frame(Some((1, 1, vec![1, 2, 3, 4]))).expect("exact size");
    assert_eq!((frame.width, frame.height), (1, 1));
    assert_eq!(frame.pixels, vec![1, 2, 3, 4]);
    assert!(icon_frame(Some((2, 1, vec![1, 2, 3, 4]))).is_none());
    assert!(icon_frame(None).is_none());
}
