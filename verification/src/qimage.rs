//! Conversion of raw `QImage` pixel rows, as KWin hands them over, into
//! tightly packed RGBA bytes.
use vstd::prelude::*;
use crate::text::{decimal, push_decimal};
use vstd::arithmetic::mul::{
    lemma_mul_inequality, lemma_mul_is_commutative, lemma_mul_is_distributive_add_other_way,
};

verus! {

/// `QImage::Format_RGB32`: 32-bit pixels stored as B, G, R, 0xff in memory.
pub const QIMAGE_FORMAT_RGB32: u32 = 4;
/// `QImage::Format_ARGB32`: 32-bit pixels stored as B, G, R, A in memory.
pub const QIMAGE_FORMAT_ARGB32: u32 = 5;
/// `QImage::Format_ARGB32_Premultiplied`: like ARGB32 with premultiplied colour.
pub const QIMAGE_FORMAT_ARGB32_PREMULTIPLIED: u32 = 6;
/// `QImage::Format_RGB888`: 24-bit pixels stored as R, G, B.
pub const QIMAGE_FORMAT_RGB888: u32 = 13;
/// `QImage::Format_RGBX8888`: 32-bit pixels stored as R, G, B, (ignored).
pub const QIMAGE_FORMAT_RGBX8888: u32 = 16;
/// `QImage::Format_RGBA8888`: 32-bit pixels stored as R, G, B, A.
pub const QIMAGE_FORMAT_RGBA8888: u32 = 17;
/// `QImage::Format_RGBA8888_Premultiplied`: like RGBA8888 with premultiplied colour.
pub const QIMAGE_FORMAT_RGBA8888_PREMULTIPLIED: u32 = 18;
/// `QImage::Format_BGR888`: 24-bit pixels stored as B, G, R.
pub const QIMAGE_FORMAT_BGR888: u32 = 29;

/// How the bytes of one source pixel are laid out in memory.
#[derive(Debug, Clone, Copy, PartialEq, Eq, Structural)]
pub enum PixelLayout {
    /// Four bytes: blue, green, red, alpha.
    Bgra,
    /// Four bytes: red, green, blue, padding (output alpha is opaque).
    Rgbx,
    /// Four bytes: red, green, blue, alpha.
    Rgba,
    /// Three bytes: red, green, blue (output alpha is opaque).
    Rgb,
    /// Three bytes: blue, green, red (output alpha is opaque).
    Bgr,
}

/// Why a raw frame could not be converted.
#[derive(Debug, Clone, Copy, PartialEq, Eq, Structural)]
pub enum ConversionError {
    /// The QImage format number is not one this converter understands.
    UnsupportedFormat { format: u32 },
    /// `width * bytes_per_pixel` does not fit in `usize`.
    RowByteCountOverflow,
    /// A row of pixels is longer than the stride between rows.
    StrideTooSmall { stride: u32, row_bytes: usize },
    /// `width * height` does not fit in `usize`.
    PixelCountOverflow,
}

/// The diagnostic text of a conversion error.
pub open spec fn conversion_message(e: ConversionError) -> Seq<char> {
    match e {
        ConversionError::UnsupportedFormat { format } => "unsupported KWin QImage format "@ + decimal(
            format as nat,
        ),
        ConversionError::RowByteCountOverflow => "KWin screenshot row byte count overflow"@,
        ConversionError::StrideTooSmall { stride, row_bytes } => "KWin screenshot stride "@
            + decimal(stride as nat) + " is smaller than row width "@ + decimal(row_bytes as nat),
        ConversionError::PixelCountOverflow => "KWin screenshot pixel count overflow"@,
    }
}

impl ConversionError {
    /// The diagnostic text of this error.
    pub fn message(&self) -> (s: String)
        ensures
            s@ == conversion_message(*self),
    {
        match self {
            ConversionError::UnsupportedFormat { format } => {
                let mut s = String::from_str("unsupported KWin QImage format ");
                push_decimal(&mut s, *format as u64);
                s
            },
            ConversionError::RowByteCountOverflow => String::from_str(
                "KWin screenshot row byte count overflow",
            ),
            ConversionError::StrideTooSmall { stride, row_bytes } => {
                let mut s = String::from_str("KWin screenshot stride ");
                push_decimal(&mut s, *stride as u64);
                s.append(" is smaller than row width ");
                push_decimal(&mut s, *row_bytes as u64);
                s
            },
            ConversionError::PixelCountOverflow => String::from_str(
                "KWin screenshot pixel count overflow",
            ),
        }
    }
}

/// The memory layout of a supported QImage format.
pub open spec fn spec_pixel_layout(format: u32) -> Option<PixelLayout> {
    if format == QIMAGE_FORMAT_RGB32 || format == QIMAGE_FORMAT_ARGB32
        || format == QIMAGE_FORMAT_ARGB32_PREMULTIPLIED {
        Some(PixelLayout::Bgra)
    } else if format == QIMAGE_FORMAT_RGBX8888 {
        Some(PixelLayout::Rgbx)
    } else if format == QIMAGE_FORMAT_RGBA8888 || format == QIMAGE_FORMAT_RGBA8888_PREMULTIPLIED {
        Some(PixelLayout::Rgba)
    } else if format == QIMAGE_FORMAT_RGB888 {
        Some(PixelLayout::Rgb)
    } else if format == QIMAGE_FORMAT_BGR888 {
        Some(PixelLayout::Bgr)
    } else {
        None
    }
}

/// Bytes that one source pixel occupies.
pub open spec fn layout_bytes(layout: PixelLayout) -> nat {
    match layout {
        PixelLayout::Rgb | PixelLayout::Bgr => 3,
        _ => 4,
    }
}

/// Bytes per source pixel of a QImage format, if the format is supported.
pub open spec fn spec_bytes_per_pixel(format: u32) -> Option<nat> {
    match spec_pixel_layout(format) {
        Some(layout) => Some(layout_bytes(layout)),
        None => None,
    }
}

/// Output channel `c` (0 = red, 1 = green, 2 = blue, 3 = alpha) of the source
/// pixel that starts at byte `at` of `raw`.
pub open spec fn pixel_channel(layout: PixelLayout, raw: Seq<u8>, at: int, c: int) -> u8 {
    match layout {
        PixelLayout::Bgra => if c == 3 { raw[at + 3] } else { raw[at + 2 - c] },
        PixelLayout::Rgbx => if c == 3 { 255u8 } else { raw[at + c] },
        PixelLayout::Rgba => raw[at + c],
        PixelLayout::Rgb => if c == 3 { 255u8 } else { raw[at + c] },
        PixelLayout::Bgr => if c == 3 { 255u8 } else { raw[at + 2 - c] },
    }
}

/// Channel `c` of output pixel `(x, y)` in a packed RGBA buffer of the given width.
pub open spec fn rgba_at(out: Seq<u8>, width: int, y: int, x: int, c: int) -> u8 {
    out[(y * width + x) * 4 + c]
}

/// Channel `c` of the `q`-th four-byte group of a buffer.
pub open spec fn group_at(out: Seq<u8>, q: int, c: int) -> u8 {
    out[4 * q + c]
}

/// True when the rows are already packed 32-bit pixels, which are converted
/// in place, four bytes at a time, over the whole buffer.
pub open spec fn is_packed_32bit(width: u32, stride: u32, format: u32) -> bool {
    spec_bytes_per_pixel(format) == Some(4nat) && stride as int == width as int * 4
}

/// The error that converting a frame with this geometry yields, if any.
pub open spec fn spec_conversion_error(width: u32, height: u32, stride: u32, format: u32) -> Option<ConversionError> {
    match spec_bytes_per_pixel(format) {
        None => Some(ConversionError::UnsupportedFormat { format }),
        Some(bpp) => {
            let row = width as int * bpp;
            if row > usize::MAX {
                Some(ConversionError::RowByteCountOverflow)
            } else if (stride as int) < row {
                Some(ConversionError::StrideTooSmall { stride, row_bytes: row as usize })
            } else if !is_packed_32bit(width, stride, format) && width as int * height as int > usize::MAX {
                Some(ConversionError::PixelCountOverflow)
            } else {
                None
            }
        }
    }
}

/// What the converter needs of the buffer: the row-by-row path reads the
/// first `row` bytes of each of the `height` rows, and its output must fit
/// in memory.
pub open spec fn conversion_input_ok(raw_len: nat, width: u32, height: u32, stride: u32, format: u32) -> bool {
    (spec_conversion_error(width, height, stride, format) is None
        && !is_packed_32bit(width, stride, format)) ==> {
        &&& (height == 0 || (height as int - 1) * stride as int
            + width as int * spec_bytes_per_pixel(format).unwrap() <= raw_len)
        &&& width as int * height as int * 4 <= usize::MAX
    }
}

/// In-place conversion of packed 32-bit pixels: every complete group of four
/// bytes becomes one RGBA pixel; a trailing partial group is left as it was.
pub open spec fn packed_converted(layout: PixelLayout, raw: Seq<u8>, out: Seq<u8>) -> bool {
    &&& out.len() == raw.len()
    &&& forall|q: int, c: int|
        0 <= q < raw.len() / 4 && 0 <= c < 4 ==> #[trigger] group_at(out, q, c) == pixel_channel(
            layout,
            raw,
            4 * q,
            c,
        )
    &&& forall|i: int| raw.len() / 4 * 4 <= i < raw.len() ==> #[trigger] out[i] == raw[i]
}

/// Row-by-row conversion: output pixel `(x, y)` is the source pixel that
/// starts `y * stride + x * bpp` bytes into the buffer; padding after each
/// row is skipped.
pub open spec fn rows_converted(
    layout: PixelLayout,
    raw: Seq<u8>,
    width: int,
    height: int,
    stride: int,
    out: Seq<u8>,
) -> bool {
    &&& out.len() == width * height * 4
    &&& forall|y: int, x: int, c: int|
        0 <= y < height && 0 <= x < width && 0 <= c < 4 ==> #[trigger] rgba_at(out, width, y, x, c)
            == pixel_channel(layout, raw, y * stride + x * layout_bytes(layout), c)
}

/// The complete outcome of a successful conversion.
pub open spec fn converted(
    raw: Seq<u8>,
    width: u32,
    height: u32,
    stride: u32,
    format: u32,
    out: Seq<u8>,
) -> bool {
    let layout = spec_pixel_layout(format).unwrap();
    if is_packed_32bit(width, stride, format) {
        packed_converted(layout, raw, out)
    } else {
        rows_converted(layout, raw, width as int, height as int, stride as int, out)
    }
}

/// The memory layout of a QImage format, or `None` for unsupported formats.
pub fn pixel_layout(format: u32) -> (res: Option<PixelLayout>)
    ensures
        res == spec_pixel_layout(format),
{
    if format == QIMAGE_FORMAT_RGB32 || format == QIMAGE_FORMAT_ARGB32
        || format == QIMAGE_FORMAT_ARGB32_PREMULTIPLIED {
        Some(PixelLayout::Bgra)
    } else if format == QIMAGE_FORMAT_RGBX8888 {
        Some(PixelLayout::Rgbx)
    } else if format == QIMAGE_FORMAT_RGBA8888 || format == QIMAGE_FORMAT_RGBA8888_PREMULTIPLIED {
        Some(PixelLayout::Rgba)
    } else if format == QIMAGE_FORMAT_RGB888 {
        Some(PixelLayout::Rgb)
    } else if format == QIMAGE_FORMAT_BGR888 {
        Some(PixelLayout::Bgr)
    } else {
        None
    }
}

/// Bytes that one pixel of the layout occupies.
pub fn bytes_per_pixel(layout: PixelLayout) -> (res: usize)
    ensures
        res as nat == layout_bytes(layout),
{
    match layout {
        PixelLayout::Rgb | PixelLayout::Bgr => 3,
        _ => 4,
    }
}

proof fn lemma_row_major_before(width: int, yy: int, xx: int, y: int, x: int)
    requires
        0 <= yy,
        0 <= xx < width,
        0 <= x,
        yy < y,
    ensures
        yy * width + xx < y * width + x,
{
    lemma_mul_inequality(yy + 1, y, width);
    lemma_mul_is_distributive_add_other_way(width, yy, 1);
}

proof fn lemma_source_in_bounds(y: int, x: int, stride: int, bpp: int, width: int, height: int, len: int)
    requires
        0 <= y < height,
        0 <= x < width,
        bpp > 0,
        stride >= width * bpp,
        (height - 1) * stride + width * bpp <= len,
    ensures
        y * stride + x * bpp + bpp <= len,
        y * stride <= len,
{
    lemma_mul_inequality(y, height - 1, stride);
    lemma_mul_inequality(x + 1, width, bpp);
    lemma_mul_is_distributive_add_other_way(bpp, x, 1);
}

/// Converts packed 32-bit pixels in place, four bytes at a time.
fn convert_packed(raw: &mut Vec<u8>, layout: PixelLayout)
    requires
        layout_bytes(layout) == 4,
    ensures
        packed_converted(layout, old(raw)@, final(raw)@),
{
    let ghost orig = raw@;
    let len = raw.len();
    let n = len / 4;
    assert(4 * n <= len);
    let mut k: usize = 0;
    while k < n
        invariant
            raw@.len() == orig.len(),
            len == orig.len(),
            n == orig.len() / 4,
            4 * n <= len,
            0 <= k <= n,
            layout_bytes(layout) == 4,
            forall|q: int, c: int|
                0 <= q < k && 0 <= c < 4 ==> #[trigger] group_at(raw@, q, c) == pixel_channel(
                    layout,
                    orig,
                    4 * q,
                    c,
                ),
            forall|i: int| 4 * k <= i < orig.len() ==> #[trigger] raw@[i] == orig[i],
        decreases n - k,
    {
        let ghost before = raw@;
        let i = 4 * k;
        match layout {
            PixelLayout::Bgra => {
                let blue = raw[i];
                let red = raw[i + 2];
                raw.set(i, red);
                raw.set(i + 2, blue);
            },
            PixelLayout::Rgbx => {
                raw.set(i + 3, 255);
            },
            _ => {},
        }
        proof {
            assert forall|q: int, c: int| 0 <= q < k + 1 && 0 <= c < 4 implies #[trigger] group_at(
                raw@,
                q,
                c,
            ) == pixel_channel(layout, orig, 4 * q, c) by {
                if q < k {
                    assert(group_at(raw@, q, c) == group_at(before, q, c));
                }
            }
        }
        k = k + 1;
    }
}

/// Converts each row of `height` rows, `stride` bytes apart, into packed RGBA.
fn convert_rows(raw: &Vec<u8>, layout: PixelLayout, width: usize, height: usize, stride: usize) -> (out: Vec<u8>)
    requires
        stride >= width * layout_bytes(layout),
        height == 0 || (height - 1) * stride + width * layout_bytes(layout) <= raw@.len(),
        width * height * 4 <= usize::MAX,
    ensures
        rows_converted(layout, raw@, width as int, height as int, stride as int, out@),
{
    let bpp = bytes_per_pixel(layout);
    let len = raw.len();
    let mut out: Vec<u8> = Vec::new();
    let mut y: usize = 0;
    while y < height
        invariant
            len == raw@.len(),
            bpp as nat == layout_bytes(layout),
            stride >= width * bpp,
            height == 0 || (height - 1) * stride + width * bpp <= raw@.len(),
            width * height * 4 <= usize::MAX,
            0 <= y <= height,
            out@.len() == y * width * 4,
            forall|yy: int, xx: int, c: int|
                0 <= yy < y && 0 <= xx < width && 0 <= c < 4 ==> #[trigger] rgba_at(
                    out@,
                    width as int,
                    yy,
                    xx,
                    c,
                ) == pixel_channel(layout, raw@, yy * stride + xx * bpp, c),
        decreases height - y,
    {
        proof {
            lemma_mul_inequality(y as int, height as int - 1, stride as int);
            assert(width * bpp >= 0);
            assert(y * stride <= (height - 1) * stride);
            assert(y * stride <= raw@.len());
        }
        let row_start = y * stride;
        let mut x: usize = 0;
        while x < width
            invariant
                len == raw@.len(),
                bpp as nat == layout_bytes(layout),
                stride >= width * bpp,
                (height - 1) * stride + width * bpp <= raw@.len(),
                width * height * 4 <= usize::MAX,
                0 <= y < height,
                row_start == y * stride,
                0 <= x <= width,
                out@.len() == (y * width + x) * 4,
                forall|yy: int, xx: int, c: int|
                    0 <= yy <= y && 0 <= xx < width && 0 <= c < 4 && (yy < y || xx < x)
                        ==> #[trigger] rgba_at(out@, width as int, yy, xx, c) == pixel_channel(
                        layout,
                        raw@,
                        yy * stride + xx * bpp,
                        c,
                    ),
            decreases width - x,
        {
            proof {
                lemma_source_in_bounds(y as int, x as int, stride as int, bpp as int, width as int, height as int, raw@.len() as int);
                lemma_mul_inequality(x as int, width as int, bpp as int);
                lemma_mul_inequality(y as int + 1, height as int, width as int);
                lemma_mul_is_distributive_add_other_way(width as int, y as int, 1);
                lemma_mul_inequality(y as int * width as int + x as int + 1, height as int * width as int, 4);
            }
            let at = row_start + x * bpp;
            let ghost before = out@;
            match layout {
                PixelLayout::Bgra => {
                    out.push(raw[at + 2]);
                    out.push(raw[at + 1]);
                    out.push(raw[at]);
                    out.push(raw[at + 3]);
                },
                PixelLayout::Rgbx => {
                    out.push(raw[at]);
                    out.push(raw[at + 1]);
                    out.push(raw[at + 2]);
                    out.push(255);
                },
                PixelLayout::Rgba => {
                    out.push(raw[at]);
                    out.push(raw[at + 1]);
                    out.push(raw[at + 2]);
                    out.push(raw[at + 3]);
                },
                PixelLayout::Rgb => {
                    out.push(raw[at]);
                    out.push(raw[at + 1]);
                    out.push(raw[at + 2]);
                    out.push(255);
                },
                PixelLayout::Bgr => {
                    out.push(raw[at + 2]);
                    out.push(raw[at + 1]);
                    out.push(raw[at]);
                    out.push(255);
                },
            }
            proof {
                assert forall|yy: int, xx: int, c: int|
                    0 <= yy <= y && 0 <= xx < width && 0 <= c < 4 && (yy < y || xx < x + 1)
                        implies #[trigger] rgba_at(out@, width as int, yy, xx, c) == pixel_channel(
                        layout,
                        raw@,
                        yy * stride + xx * bpp,
                        c,
                    ) by {
                    if yy < y {
                        lemma_row_major_before(width as int, yy, xx, y as int, x as int);
                        assert(rgba_at(out@, width as int, yy, xx, c) == rgba_at(before, width as int, yy, xx, c));
                    } else if xx < x {
                        assert(rgba_at(out@, width as int, yy, xx, c) == rgba_at(before, width as int, yy, xx, c));
                    }
                }
            }
            x = x + 1;
        }
        proof {
            lemma_mul_is_distributive_add_other_way(width as int, y as int, 1);
        }
        y = y + 1;
    }
    proof {
        lemma_mul_is_commutative(width as int, height as int);
    }
    out
}

/// Converts a raw KWin capture, `height` rows of `width` pixels spaced
/// `stride` bytes apart in the given QImage `format`, into packed RGBA.
///
/// Packed 32-bit input (`stride == width * 4`) is converted in place over the
/// whole buffer; every other input is converted row by row, skipping the
/// padding at the end of each row.
pub fn qimage_to_rgba(raw: Vec<u8>, width: u32, height: u32, stride: u32, format: u32) -> (res: Result<Vec<u8>, ConversionError>)
    requires
        conversion_input_ok(raw@.len(), width, height, stride, format),
    ensures
        match res {
            Ok(out) => spec_conversion_error(width, height, stride, format) is None
                && converted(raw@, width, height, stride, format, out@),
            Err(e) => spec_conversion_error(width, height, stride, format) == Some(e),
        },
{
    let mut raw = raw;
    let layout = match pixel_layout(format) {
        Some(layout) => layout,
        None => {
            return Err(ConversionError::UnsupportedFormat { format });
        },
    };
    let bpp = bytes_per_pixel(layout);
    let row_bytes = match (width as usize).checked_mul(bpp) {
        Some(row_bytes) => row_bytes,
        None => {
            return Err(ConversionError::RowByteCountOverflow);
        },
    };
    if (stride as usize) < row_bytes {
        return Err(ConversionError::StrideTooSmall { stride, row_bytes });
    }
    if stride as usize == row_bytes && bpp == 4 {
        convert_packed(&mut raw, layout);
        return Ok(raw);
    }
    let pixel_count = match (width as usize).checked_mul(height as usize) {
        Some(pixel_count) => pixel_count,
        None => {
            return Err(ConversionError::PixelCountOverflow);
        },
    };
    let out = convert_rows(&raw, layout, width as usize, height as usize, stride as usize);
    Ok(out)
}

/// A well-formed capture (`stride * height` bytes) converts to exactly
/// `width * height` RGBA pixels, pixel `(x, y)` taken from
/// `y * stride + x * bpp`, whichever of the two conversion paths is taken.
pub proof fn conversion_yields_rows(
    raw: Seq<u8>,
    width: u32,
    height: u32,
    stride: u32,
    format: u32,
    out: Seq<u8>,
)
    requires
        spec_pixel_layout(format) is Some,
        raw.len() == stride as int * height as int,
        converted(raw, width, height, stride, format, out),
    ensures
        rows_converted(
            spec_pixel_layout(format).unwrap(),
            raw,
            width as int,
            height as int,
            stride as int,
            out,
        ),
{
    let layout = spec_pixel_layout(format).unwrap();
    if is_packed_32bit(width, stride, format) {
        let w = width as int;
        let h = height as int;
        let s = stride as int;
        assert(s * h == 4 * (w * h)) by (nonlinear_arith)
            requires s == w * 4;
        assert(raw.len() / 4 == w * h);
        assert(out.len() == w * h * 4);
        assert forall|y: int, x: int, c: int|
            0 <= y < h && 0 <= x < w && 0 <= c < 4 implies #[trigger] rgba_at(out, w, y, x, c)
                == pixel_channel(layout, raw, y * s + x * layout_bytes(layout), c) by {
            lemma_row_major_before(w, y, x, h, 0);
            assert(y * w + x < w * h) by {
                lemma_mul_is_commutative(w, h);
            }
            assert(4 * (y * w + x) == y * s + x * 4) by (nonlinear_arith)
                requires s == w * 4;
            assert(rgba_at(out, w, y, x, c) == group_at(out, y * w + x, c));
        }
    }
}

/// Packed RGBA8888 input passes through unchanged: no channel is swizzled.
pub proof fn packed_rgba_is_unchanged(raw: Seq<u8>, out: Seq<u8>)
    requires
        packed_converted(PixelLayout::Rgba, raw, out),
    ensures
        out == raw,
{
    assert forall|i: int| 0 <= i < raw.len() implies out[i] == raw[i] by {
        if i < raw.len() / 4 * 4 {
            let q = i / 4;
            let c = i % 4;
            assert(group_at(out, q, c) == pixel_channel(PixelLayout::Rgba, raw, 4 * q, c));
        }
    }
    assert(out =~= raw);
}

/// The output of a row-by-row conversion depends only on the pixel bytes:
/// two buffers, with rows `stride1` and `stride2` bytes apart, whose pixels
/// have the same bytes convert to the same RGBA image.
proof fn rows_determine_output(
    layout: PixelLayout,
    raw1: Seq<u8>,
    stride1: int,
    raw2: Seq<u8>,
    stride2: int,
    width: int,
    height: int,
    out1: Seq<u8>,
    out2: Seq<u8>,
)
    requires
        0 <= width,
        0 <= height,
        rows_converted(layout, raw1, width, height, stride1, out1),
        rows_converted(layout, raw2, width, height, stride2, out2),
        forall|y: int, x: int, b: int|
            0 <= y < height && 0 <= x < width && 0 <= b < layout_bytes(layout) ==> #[trigger] raw1[y
                * stride1 + x * layout_bytes(layout) + b] == raw2[y * stride2 + x * layout_bytes(layout) + b],
    ensures
        out1 == out2,
{
    assert forall|i: int| 0 <= i < out1.len() implies out1[i] == out2[i] by {
        let p = i / 4;
        let c = i % 4;
        let y = p / width;
        let x = p % width;
        assert(width > 0 && height > 0) by (nonlinear_arith)
            requires out1.len() == width * height * 4, 0 <= i < out1.len(), width >= 0, height >= 0;
        assert(p == y * width + x) by (nonlinear_arith)
            requires width > 0, y == p / width, x == p % width;
        assert(0 <= y < height) by (nonlinear_arith)
            requires width > 0, y == p / width, 0 <= p, p < width * height, p == i / 4, i < width * height * 4;
        assert(0 <= x < width) by (nonlinear_arith)
            requires width > 0, x == p % width;
        assert(rgba_at(out1, width, y, x, c) == out1[i]);
        assert(rgba_at(out2, width, y, x, c) == out2[i]);
        let at1 = y * stride1 + x * layout_bytes(layout);
        let at2 = y * stride2 + x * layout_bytes(layout);
        assert(raw1[at1 + 0] == raw2[at2 + 0]);
        assert(raw1[at1 + 1] == raw2[at2 + 1]);
        assert(raw1[at1 + 2] == raw2[at2 + 2]);
        if layout_bytes(layout) == 4 {
            assert(raw1[at1 + 3] == raw2[at2 + 3]);
        }
    }
    assert(out1 =~= out2);
}

/// Bytes between the end of a row's pixels and the next row (the stride
/// padding) never reach the output: two buffers that agree on every pixel
/// byte convert to the same RGBA image.
pub proof fn padding_is_ignored(
    layout: PixelLayout,
    raw1: Seq<u8>,
    raw2: Seq<u8>,
    width: int,
    height: int,
    stride: int,
    out1: Seq<u8>,
    out2: Seq<u8>,
)
    requires
        0 <= width,
        0 <= height,
        rows_converted(layout, raw1, width, height, stride, out1),
        rows_converted(layout, raw2, width, height, stride, out2),
        forall|y: int, x: int, b: int|
            0 <= y < height && 0 <= x < width && 0 <= b < layout_bytes(layout) ==> #[trigger] raw1[y
                * stride + x * layout_bytes(layout) + b] == raw2[y * stride + x * layout_bytes(layout) + b],
    ensures
        out1 == out2,
{
    rows_determine_output(layout, raw1, stride, raw2, stride, width, height, out1, out2);
}

/// A padded capture, rows `stride` bytes apart, and the packed capture of
/// the same rows, `width * bpp` bytes apart, convert alike: they fail with
/// the same error, and when both convert, the in-place path taken for the
/// packed 32-bit buffer and the row-by-row path give the same RGBA image.
/// The errors agree for every buffer in memory, whose length fits in `usize`;
/// the images agree whenever both conversions succeed.
pub proof fn packed_and_padded_agree(
    packed: Seq<u8>,
    padded: Seq<u8>,
    width: u32,
    height: u32,
    stride: u32,
    format: u32,
    out_packed: Seq<u8>,
    out_padded: Seq<u8>,
)
    requires
        spec_pixel_layout(format) is Some,
        width as int * spec_bytes_per_pixel(format).unwrap() <= stride,
        packed.len() == width as int * spec_bytes_per_pixel(format).unwrap() * height as int,
        padded.len() == stride as int * height as int,
        forall|y: int|
            0 <= y < height ==> #[trigger] padded.subrange(
                y * stride,
                y * stride + width as int * spec_bytes_per_pixel(format).unwrap(),
            ) == packed.subrange(
                y * (width as int * spec_bytes_per_pixel(format).unwrap()),
                (y + 1) * (width as int * spec_bytes_per_pixel(format).unwrap()),
            ),
    ensures
        padded.len() <= usize::MAX ==> spec_conversion_error(width, height, stride, format) == spec_conversion_error(
            width,
            height,
            (width as int * spec_bytes_per_pixel(format).unwrap()) as u32,
            format,
        ),
        converted(
            packed,
            width,
            height,
            (width as int * spec_bytes_per_pixel(format).unwrap()) as u32,
            format,
            out_packed,
        ) && converted(padded, width, height, stride, format, out_padded) ==> out_packed
            == out_padded,
{
    let layout = spec_pixel_layout(format).unwrap();
    let bpp = layout_bytes(layout);
    let w = width as int;
    let h = height as int;
    let s = stride as int;
    let rb = w * bpp;
    assert(spec_bytes_per_pixel(format).unwrap() == bpp);
    assert(0 <= rb) by (nonlinear_arith)
        requires w >= 0, bpp >= 3, rb == w * bpp;
    assert(w * h <= s * h) by (nonlinear_arith)
        requires rb <= s, rb == w * bpp, bpp >= 3, w >= 0, h >= 0;
    if converted(packed, width, height, rb as u32, format, out_packed) && converted(
        padded,
        width,
        height,
        stride,
        format,
        out_padded,
    ) {
        assert(packed.len() == rb * h);
        conversion_yields_rows(packed, width, height, rb as u32, format, out_packed);
        conversion_yields_rows(padded, width, height, stride, format, out_padded);
        assert forall|y: int, x: int, b: int|
            0 <= y < h && 0 <= x < w && 0 <= b < bpp implies #[trigger] padded[y * s + x * bpp + b]
                == packed[y * rb + x * bpp + b] by {
            let k = x * bpp + b;
            assert(0 <= k < rb) by (nonlinear_arith)
                requires 0 <= x < w, 0 <= b < bpp, k == x * bpp + b, rb == w * bpp;
            assert(y * s + s <= s * h) by (nonlinear_arith)
                requires 0 <= y, y + 1 <= h, 0 <= s;
            assert(y * s + rb <= s * h);
            assert((y + 1) * rb <= rb * h) by (nonlinear_arith)
                requires 0 <= y < h, 0 <= rb;
            assert(0 <= y * s && 0 <= y * rb) by (nonlinear_arith)
                requires 0 <= y, 0 <= s, 0 <= rb;
            assert((y + 1) * rb == y * rb + rb) by (nonlinear_arith);
            let row_padded = padded.subrange(y * s, y * s + rb);
            let row_packed = packed.subrange(y * rb, (y + 1) * rb);
            assert(row_padded == row_packed);
            assert(row_padded[k] == padded[y * s + k]);
            assert(row_packed[k] == packed[y * rb + k]);
        }
        rows_determine_output(layout, padded, s, packed, rb, w, h, out_padded, out_packed);
    }
}

} // verus!
