use screenshot::qimage::{
    qimage_to_rgba, ConversionError, QIMAGE_FORMAT_ARGB32, QIMAGE_FORMAT_ARGB32_PREMULTIPLIED,
    QIMAGE_FORMAT_BGR888, QIMAGE_FORMAT_RGB32, QIMAGE_FORMAT_RGB888, QIMAGE_FORMAT_RGBA8888,
    QIMAGE_FORMAT_RGBA8888_PREMULTIPLIED, QIMAGE_FORMAT_RGBX8888,
};

#[test]
fn converts_argb32_with_stride_padding() {
    let raw = [
        3, 2, 1, 255, 6, 5, 4, 255, 0, 0, 0, 0, 9, 8, 7, 255, 12, 11, 10, 255, 0, 0, 0, 0,
    ];
    let rgba = qimage_to_rgba(raw.to_vec(), 2, 2, 12, QIMAGE_FORMAT_ARGB32_PREMULTIPLIED)
        .expect("ARGB32 conversion should succeed");
    assert_eq!(
        rgba,
        [1, 2, 3, 255, 4, 5, 6, 255, 7, 8, 9, 255, 10, 11, 12, 255,]
    );
}

#[test]
fn converts_rgba8888_without_swizzling() {
    let raw = [1, 2, 3, 4, 5, 6, 7, 8];
    let rgba = qimage_to_rgba(raw.to_vec(), 2, 1, 8, QIMAGE_FORMAT_RGBA8888)
        .expect("RGBA conversion should succeed");
    assert_eq!(rgba, raw);
}

#[test]
fn rejects_short_stride() {
    let error = qimage_to_rgba(vec![0; 8], 3, 1, 8, QIMAGE_FORMAT_RGB32)
        .expect_err("short stride must fail");
    assert!(error.message().contains("stride"));
}

#[test]
fn short_stride_error_reports_both_widths() {
    let error = qimage_to_rgba(vec![0; 8], 3, 1, 8, QIMAGE_FORMAT_RGB32).unwrap_err();
    assert_eq!(error, ConversionError::StrideTooSmall { stride: 8, row_bytes: 12 });
    assert_eq!(
        error.message(),
        "KWin screenshot stride 8 is smaller than row width 12"
    );
}

#[test]
fn rejects_unknown_format() {
    let error = qimage_to_rgba(vec![0; 4], 1, 1, 4, 99).unwrap_err();
    assert_eq!(error, ConversionError::UnsupportedFormat { format: 99 });
    assert_eq!(error.message(), "unsupported KWin QImage format 99");
}

#[test]
fn packed_argb32_swaps_red_and_blue_in_place() {
    let raw = vec![10, 20, 30, 40, 50, 60, 70, 80];
    let rgba = qimage_to_rgba(raw, 2, 1, 8, QIMAGE_FORMAT_ARGB32).unwrap();
    assert_eq!(rgba, vec![30, 20, 10, 40, 70, 60, 50, 80]);
}

#[test]
fn packed_rgb32_keeps_stored_fourth_byte() {
    let raw = vec![1, 2, 3, 0x7f];
    let rgba = qimage_to_rgba(raw, 1, 1, 4, QIMAGE_FORMAT_RGB32).unwrap();
    assert_eq!(rgba, vec![3, 2, 1, 0x7f]);
}

#[test]
fn packed_rgbx_forces_opaque_alpha() {
    let raw = vec![1, 2, 3, 0, 4, 5, 6, 9];
    let rgba = qimage_to_rgba(raw, 2, 1, 8, QIMAGE_FORMAT_RGBX8888).unwrap();
    assert_eq!(rgba, vec![1, 2, 3, 255, 4, 5, 6, 255]);
}

#[test]
fn padded_rgbx_forces_opaque_alpha() {
    let raw = vec![1, 2, 3, 0, 99, 99, 4, 5, 6, 7, 99, 99];
    let rgba = qimage_to_rgba(raw, 1, 2, 6, QIMAGE_FORMAT_RGBX8888).unwrap();
    assert_eq!(rgba, vec![1, 2, 3, 255, 4, 5, 6, 255]);
}

#[test]
fn padded_rgba_premultiplied_drops_padding() {
    let raw = vec![1, 2, 3, 4, 0, 5, 6, 7, 8, 0];
    let rgba = qimage_to_rgba(raw, 1, 2, 5, QIMAGE_FORMAT_RGBA8888_PREMULTIPLIED).unwrap();
    assert_eq!(rgba, vec![1, 2, 3, 4, 5, 6, 7, 8]);
}

#[test]
fn rgb888_gains_opaque_alpha() {
    let raw = vec![1, 2, 3, 4, 5, 6];
    let rgba = qimage_to_rgba(raw, 2, 1, 6, QIMAGE_FORMAT_RGB888).unwrap();
    assert_eq!(rgba, vec![1, 2, 3, 255, 4, 5, 6, 255]);
}

#[test]
fn bgr888_is_reordered_with_opaque_alpha() {
    let raw = vec![1, 2, 3, 0, 0, 4, 5, 6, 0, 0];
    let rgba = qimage_to_rgba(raw, 1, 2, 5, QIMAGE_FORMAT_BGR888).unwrap();
    assert_eq!(rgba, vec![3, 2, 1, 255, 6, 5, 4, 255]);
}

#[test]
fn packed_path_leaves_trailing_partial_group() {
    let raw = vec![1, 2, 3, 4, 9, 8];
    let rgba = qimage_to_rgba(raw, 1, 1, 4, QIMAGE_FORMAT_ARGB32).unwrap();
    assert_eq!(rgba, vec![3, 2, 1, 4, 9, 8]);
}

#[test]
fn zero_height_converts_to_empty_image() {
    let rgba = qimage_to_rgba(Vec::new(), 3, 0, 9, QIMAGE_FORMAT_RGB888).unwrap();
    assert!(rgba.is_empty());
}

#[test]
fn message_texts_match_each_error() {
    assert_eq!(
        ConversionError::RowByteCountOverflow.message(),
        "KWin screenshot row byte count overflow"
    );
    assert_eq!(
        ConversionError::PixelCountOverflow.message(),
        "KWin screenshot pixel count overflow"
    );
}

#[test]
fn padded_and_packed_rows_convert_alike() {
    let packed = vec![3, 2, 1, 255, 6, 5, 4, 255, 9, 8, 7, 255, 12, 11, 10, 255];
    let padded = vec![
        3, 2, 1, 255, 6, 5, 4, 255, 77, 78, 79, 80, 9, 8, 7, 255, 12, 11, 10, 255, 90, 91, 92, 93,
    ];
    let from_packed = qimage_to_rgba(packed, 2, 2, 8, QIMAGE_FORMAT_ARGB32).unwrap();
    let from_padded = qimage_to_rgba(padded, 2, 2, 12, QIMAGE_FORMAT_ARGB32).unwrap();
    assert_eq!(from_packed, from_padded);
    assert_eq!(from_packed, vec![1, 2, 3, 255, 4, 5, 6, 255, 7, 8, 9, 255, 10, 11, 12, 255]);

    let packed_rgb = vec![1, 2, 3, 4, 5, 6];
    let padded_rgb = vec![1, 2, 3, 0, 4, 5, 6, 0];
    assert_eq!(
        qimage_to_rgba(packed_rgb, 1, 2, 3, QIMAGE_FORMAT_RGB888).unwrap(),
        qimage_to_rgba(padded_rgb, 1, 2, 4, QIMAGE_FORMAT_RGB888).unwrap()
    );
}
