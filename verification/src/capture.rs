//! Validation of a KWin `CaptureWorkspace` reply and decoding of the pixels
//! that KWin writes through the capture descriptor.
use vstd::prelude::*;
use crate::qimage::{
    conversion_message, conversion_yields_rows, qimage_to_rgba, rows_converted,
    spec_conversion_error, spec_pixel_layout, ConversionError,
};
use crate::text::{decimal, push_decimal};

verus! {

/// The entries of the capture metadata that the decoder reads.
#[derive(Debug, Clone, Copy, PartialEq, Eq, Structural)]
pub enum MetadataKey {
    Width,
    Height,
    Stride,
    Format,
}

/// One metadata entry as KWin returned it.
#[derive(Debug, Clone, Copy, PartialEq, Eq, Structural)]
pub enum MetadataField {
    /// The reply has no entry under this key.
    Missing,
    /// The entry exists but does not hold a `u32`.
    NotU32,
    /// The entry holds this `u32`.
    Value(u32),
}

/// The integer entries of a `CaptureWorkspace` reply.
#[derive(Debug, Clone, Copy, PartialEq, Eq, Structural)]
pub struct CaptureMetadata {
    pub width: MetadataField,
    pub height: MetadataField,
    pub stride: MetadataField,
    pub format: MetadataField,
}

/// The geometry of a capture whose metadata passed validation.
#[derive(Debug, Clone, Copy, PartialEq, Eq, Structural)]
pub struct CaptureLayout {
    pub width: u32,
    pub height: u32,
    pub stride: u32,
    pub format: u32,
}

/// Why a capture could not be decoded.
#[derive(Debug, Clone, Copy, PartialEq, Eq, Structural)]
pub enum CaptureError {
    /// A metadata entry is absent.
    MissingMetadata { key: MetadataKey },
    /// A metadata entry is not a `u32`.
    MetadataNotU32 { key: MetadataKey },
    /// KWin reported a zero width or height.
    EmptyFrame { width: u32, height: u32 },
    /// `stride * height` does not fit in `usize`.
    ByteCountOverflow,
    /// KWin wrote a different number of bytes than `stride * height`.
    Truncated { expected: usize, received: usize },
    /// The pixel rows could not be converted.
    Conversion(ConversionError),
}

/// The key under which KWin stores an entry.
pub open spec fn key_name(key: MetadataKey) -> Seq<char> {
    match key {
        MetadataKey::Width => "width"@,
        MetadataKey::Height => "height"@,
        MetadataKey::Stride => "stride"@,
        MetadataKey::Format => "format"@,
    }
}

impl MetadataKey {
    /// The key under which KWin stores this entry.
    pub fn name(&self) -> (s: &'static str)
        ensures
            s@ == key_name(*self),
    {
        match self {
            MetadataKey::Width => "width",
            MetadataKey::Height => "height",
            MetadataKey::Stride => "stride",
            MetadataKey::Format => "format",
        }
    }
}

/// The value of an entry, or the error that its absence or type yields.
pub open spec fn spec_metadata_u32(field: MetadataField, key: MetadataKey) -> Result<u32, CaptureError> {
    match field {
        MetadataField::Missing => Err(CaptureError::MissingMetadata { key }),
        MetadataField::NotU32 => Err(CaptureError::MetadataNotU32 { key }),
        MetadataField::Value(v) => Ok(v),
    }
}

/// Validation of the metadata, in the order KWin's reply is read: width,
/// height, the empty-frame check, stride, then format.
pub open spec fn spec_capture_layout(m: CaptureMetadata) -> Result<CaptureLayout, CaptureError> {
    match spec_metadata_u32(m.width, MetadataKey::Width) {
        Err(e) => Err(e),
        Ok(width) => match spec_metadata_u32(m.height, MetadataKey::Height) {
            Err(e) => Err(e),
            Ok(height) => if width == 0 || height == 0 {
                Err(CaptureError::EmptyFrame { width, height })
            } else {
                match spec_metadata_u32(m.stride, MetadataKey::Stride) {
                    Err(e) => Err(e),
                    Ok(stride) => match spec_metadata_u32(m.format, MetadataKey::Format) {
                        Err(e) => Err(e),
                        Ok(format) => Ok(CaptureLayout { width, height, stride, format }),
                    },
                }
            },
        },
    }
}

/// The number of bytes KWin writes for a capture: `stride * height`.
pub open spec fn spec_capture_byte_count(layout: CaptureLayout) -> Result<usize, CaptureError> {
    let n = layout.stride as int * layout.height as int;
    if n > usize::MAX {
        Err(CaptureError::ByteCountOverflow)
    } else {
        Ok(n as usize)
    }
}

/// The error that decoding `raw_len` bytes under this layout yields, if any.
pub open spec fn spec_decode_error(layout: CaptureLayout, raw_len: nat) -> Option<CaptureError> {
    match spec_capture_byte_count(layout) {
        Err(e) => Some(e),
        Ok(expected) => if raw_len != expected {
            Some(CaptureError::Truncated { expected, received: raw_len as usize })
        } else {
            match spec_conversion_error(layout.width, layout.height, layout.stride, layout.format) {
                Some(e) => Some(CaptureError::Conversion(e)),
                None => None,
            }
        },
    }
}

/// The diagnostic text of a capture error.
pub open spec fn capture_message(e: CaptureError) -> Seq<char> {
    match e {
        CaptureError::MissingMetadata { key } => "KWin screenshot metadata is missing '"@ + key_name(
            key,
        ) + "'"@,
        CaptureError::MetadataNotU32 { key } => "KWin screenshot metadata '"@ + key_name(key)
            + "' is not u32"@,
        CaptureError::EmptyFrame { width, height } => "KWin returned an empty "@ + decimal(
            width as nat,
        ) + "x"@ + decimal(height as nat) + " screenshot"@,
        CaptureError::ByteCountOverflow => "KWin screenshot byte count overflow"@,
        CaptureError::Truncated { expected, received } =>
            "KWin screenshot was truncated: expected "@ + decimal(expected as nat)
            + " bytes, received "@ + decimal(received as nat),
        CaptureError::Conversion(e) => conversion_message(e),
    }
}

impl CaptureError {
    /// The diagnostic text of this error.
    pub fn message(&self) -> (s: String)
        ensures
            s@ == capture_message(*self),
    {
        match self {
            CaptureError::MissingMetadata { key } => {
                let mut s = String::from_str("KWin screenshot metadata is missing '");
                s.append(key.name());
                s.append("'");
                s
            },
            CaptureError::MetadataNotU32 { key } => {
                let mut s = String::from_str("KWin screenshot metadata '");
                s.append(key.name());
                s.append("' is not u32");
                s
            },
            CaptureError::EmptyFrame { width, height } => {
                let mut s = String::from_str("KWin returned an empty ");
                push_decimal(&mut s, *width as u64);
                s.append("x");
                push_decimal(&mut s, *height as u64);
                s.append(" screenshot");
                s
            },
            CaptureError::ByteCountOverflow => String::from_str("KWin screenshot byte count overflow"),
            CaptureError::Truncated { expected, received } => {
                let mut s = String::from_str("KWin screenshot was truncated: expected ");
                push_decimal(&mut s, *expected as u64);
                s.append(" bytes, received ");
                push_decimal(&mut s, *received as u64);
                s
            },
            CaptureError::Conversion(e) => e.message(),
        }
    }
}

/// The value of a metadata entry that must hold a `u32`.
pub fn metadata_u32(field: &MetadataField, key: MetadataKey) -> (res: Result<u32, CaptureError>)
    ensures
        res == spec_metadata_u32(*field, key),
{
    match field {
        MetadataField::Missing => Err(CaptureError::MissingMetadata { key }),
        MetadataField::NotU32 => Err(CaptureError::MetadataNotU32 { key }),
        MetadataField::Value(v) => Ok(*v),
    }
}

/// Validates the capture metadata and returns the frame geometry.
pub fn capture_layout(metadata: &CaptureMetadata) -> (res: Result<CaptureLayout, CaptureError>)
    ensures
        res == spec_capture_layout(*metadata),
{
    let width = metadata_u32(&metadata.width, MetadataKey::Width)?;
    let height = metadata_u32(&metadata.height, MetadataKey::Height)?;
    if width == 0 || height == 0 {
        return Err(CaptureError::EmptyFrame { width, height });
    }
    let stride = metadata_u32(&metadata.stride, MetadataKey::Stride)?;
    let format = metadata_u32(&metadata.format, MetadataKey::Format)?;
    Ok(CaptureLayout { width, height, stride, format })
}

/// The number of bytes KWin writes for this capture.
pub fn capture_byte_count(layout: &CaptureLayout) -> (res: Result<usize, CaptureError>)
    ensures
        res == spec_capture_byte_count(*layout),
{
    match (layout.stride as usize).checked_mul(layout.height as usize) {
        Some(n) => Ok(n),
        None => Err(CaptureError::ByteCountOverflow),
    }
}

/// Checks that KWin wrote exactly `stride * height` bytes and converts them
/// to packed RGBA: pixel `(x, y)` comes from byte `y * stride + x * bpp`.
pub fn decode_capture(layout: &CaptureLayout, raw: Vec<u8>) -> (res: Result<Vec<u8>, CaptureError>)
    requires
        layout.width as int * layout.height as int * 4 <= usize::MAX,
    ensures
        match res {
            Ok(out) => spec_decode_error(*layout, raw@.len()) is None && rows_converted(
                spec_pixel_layout(layout.format).unwrap(),
                raw@,
                layout.width as int,
                layout.height as int,
                layout.stride as int,
                out@,
            ),
            Err(e) => spec_decode_error(*layout, raw@.len()) == Some(e),
        },
{
    let expected = capture_byte_count(layout)?;
    if raw.len() != expected {
        return Err(CaptureError::Truncated { expected, received: raw.len() });
    }
    proof {
        let s = layout.stride as int;
        let h = layout.height as int;
        if h > 0 {
            assert((h - 1) * s + s == s * h) by (nonlinear_arith);
        }
    }
    let ghost raw_view = raw@;
    match qimage_to_rgba(raw, layout.width, layout.height, layout.stride, layout.format) {
        Ok(out) => {
            proof {
                conversion_yields_rows(
                    raw_view,
                    layout.width,
                    layout.height,
                    layout.stride,
                    layout.format,
                    out@,
                );
            }
            Ok(out)
        },
        Err(e) => Err(CaptureError::Conversion(e)),
    }
}

/// The byte length of a packed RGBA frame, `width * height * 4`, or `None`
/// when it does not fit in `usize`.
pub fn rgba_frame_len(width: u32, height: u32) -> (res: Option<usize>)
    ensures
        match res {
            Some(n) => n as int == width as int * height as int * 4,
            None => width as int * height as int * 4 > usize::MAX,
        },
{
    match (width as usize).checked_mul(height as usize) {
        Some(pixels) => match pixels.checked_mul(4) {
            Some(n) => Some(n),
            None => None,
        },
        None => {
            proof {
                assert(width as int * height as int * 4 >= width as int * height as int) by (nonlinear_arith)
                    requires width as int * height as int >= 0;
            }
            None
        },
    }
}

} // verus!
