use screenshot::capture::{
    capture_byte_count, capture_layout, decode_capture, metadata_u32, rgba_frame_len,
    CaptureError, CaptureLayout, CaptureMetadata, MetadataField, MetadataKey,
};
use screenshot::qimage::{ConversionError, QIMAGE_FORMAT_ARGB32, QIMAGE_FORMAT_RGB888};

fn metadata(width: u32, height: u32, stride: u32, format: u32) -> CaptureMetadata {
    CaptureMetadata {
        width: MetadataField::Value(width),
        height: MetadataField::Value(height),
        stride: MetadataField::Value(stride),
        format: MetadataField::Value(format),
    }
}

#[test]
fn metadata_value_is_returned() {
    assert_eq!(metadata_u32(&MetadataField::Value(7), MetadataKey::Width), Ok(7));
}

#[test]
fn missing_metadata_is_reported_by_key() {
    let error = metadata_u32(&MetadataField::Missing, MetadataKey::Stride).unwrap_err();
    assert_eq!(error, CaptureError::MissingMetadata { key: MetadataKey::Stride });
    assert_eq!(error.message(), "KWin screenshot metadata is missing 'stride'");
}

#[test]
fn non_u32_metadata_is_reported_by_key() {
    let error = metadata_u32(&MetadataField::NotU32, MetadataKey::Format).unwrap_err();
    assert_eq!(error.message(), "KWin screenshot metadata 'format' is not u32");
}

#[test]
fn layout_of_complete_metadata() {
    let layout = capture_layout(&metadata(2, 3, 8, QIMAGE_FORMAT_ARGB32)).unwrap();
    assert_eq!(
        layout,
        CaptureLayout { width: 2, height: 3, stride: 8, format: QIMAGE_FORMAT_ARGB32 }
    );
}

#[test]
fn empty_frame_is_rejected_before_stride_is_read() {
    let mut m = metadata(0, 5, 0, 0);
    m.stride = MetadataField::Missing;
    let error = capture_layout(&m).unwrap_err();
    assert_eq!(error, CaptureError::EmptyFrame { width: 0, height: 5 });
    assert_eq!(error.message(), "KWin returned an empty 0x5 screenshot");
}

#[test]
fn width_is_checked_before_height() {
    let mut m = metadata(1, 1, 4, 5);
    m.width = MetadataField::NotU32;
    m.height = MetadataField::Missing;
    assert_eq!(
        capture_layout(&m),
        Err(CaptureError::MetadataNotU32 { key: MetadataKey::Width })
    );
}

#[test]
fn byte_count_is_stride_times_height() {
    let layout = CaptureLayout { width: 2, height: 3, stride: 12, format: QIMAGE_FORMAT_RGB888 };
    assert_eq!(capture_byte_count(&layout), Ok(36));
}

#[test]
fn truncated_capture_is_rejected() {
    let layout = CaptureLayout { width: 1, height: 2, stride: 4, format: QIMAGE_FORMAT_ARGB32 };
    let error = decode_capture(&layout, vec![0; 7]).unwrap_err();
    assert_eq!(error, CaptureError::Truncated { expected: 8, received: 7 });
    assert_eq!(
        error.message(),
        "KWin screenshot was truncated: expected 8 bytes, received 7"
    );
}

#[test]
fn decoded_capture_drops_row_padding() {
    let layout = CaptureLayout { width: 1, height: 2, stride: 5, format: QIMAGE_FORMAT_RGB888 };
    let rgba = decode_capture(&layout, vec![1, 2, 3, 0, 0, 4, 5, 6, 0, 0]).unwrap();
    assert_eq!(rgba, vec![1, 2, 3, 255, 4, 5, 6, 255]);
}

#[test]
fn conversion_errors_are_wrapped() {
    let layout = CaptureLayout { width: 3, height: 1, stride: 8, format: 4 };
    let error = decode_capture(&layout, vec![0; 8]).unwrap_err();
    assert_eq!(
        error,
        CaptureError::Conversion(ConversionError::StrideTooSmall { stride: 8, row_bytes: 12 })
    );
    assert!(error.message().contains("stride"));
}

#[test]
fn byte_count_overflow_message() {
    assert_eq!(
        CaptureError::ByteCountOverflow.message(),
        "KWin screenshot byte count overflow"
    );
}

#[test]
fn rgba_frame_len_is_four_bytes_per_pixel() {
    assert_eq!(rgba_frame_len(3, 2), Some(24));
    assert_eq!(rgba_frame_len(0, 9), Some(0));
}

#[test]
fn metadata_key_names() {
    assert_eq!(MetadataKey::Width.name(), "width");
    assert_eq!(MetadataKey::Height.name(), "height");
    assert_eq!(MetadataKey::Stride.name(), "stride");
    assert_eq!(MetadataKey::Format.name(), "format");
}
