//! A packed RGBA frame: reading and writing pixels, cropping a selection,
//! and painting the discs that annotation strokes are drawn with.
use vstd::prelude::*;
use vstd::arithmetic::mul::{
    lemma_mul_inequality, lemma_mul_is_commutative, lemma_mul_is_distributive_add_other_way,
    lemma_mul_strict_inequality,
};
use crate::qimage::rgba_at;

verus! {

/// An image of `width * height` pixels, four bytes (R, G, B, A) each, row by row.
#[derive(Debug, Clone, PartialEq, Eq)]
pub struct RgbaFrame {
    pub width: u32,
    pub height: u32,
    pub pixels: Vec<u8>,
}

impl RgbaFrame {
    /// The buffer holds exactly `width * height` pixels.
    pub open spec fn wf(&self) -> bool {
        self.pixels@.len() == self.width as int * self.height as int * 4
    }

    /// Channel `c` of pixel `(x, y)`.
    pub open spec fn channel(&self, x: int, y: int, c: int) -> u8 {
        rgba_at(self.pixels@, self.width as int, y, x, c)
    }

    /// Wraps a packed RGBA buffer, or returns `None` when its length is not
    /// `width * height * 4`.
    pub fn from_rgba(width: u32, height: u32, pixels: Vec<u8>) -> (res: Option<RgbaFrame>)
        ensures
            match res {
                Some(frame) => frame.wf() && frame.width == width && frame.height == height
                    && frame.pixels@ == pixels@,
                None => pixels@.len() != width as int * height as int * 4,
            },
    {
        let len = pixels.len();
        match crate::capture::rgba_frame_len(width, height) {
            Some(n) => if len == n {
                let frame = RgbaFrame { width, height, pixels };
                assert(frame.wf());
                Some(frame)
            } else {
                None
            },
            None => None,
        }
    }

    /// The colour of pixel `(x, y)`.
    pub fn pixel(&self, x: u32, y: u32) -> (color: [u8; 4])
        requires
            self.wf(),
            x < self.width,
            y < self.height,
        ensures
            forall|c: int| 0 <= c < 4 ==> color@[c] == self.channel(x as int, y as int, c),
    {
        let len = self.pixels.len();
        proof {
            lemma_pixel_in_frame(self.width as int, self.height as int, x as int, y as int);
        }
        let i = (y as usize * self.width as usize + x as usize) * 4;
        [self.pixels[i], self.pixels[i + 1], self.pixels[i + 2], self.pixels[i + 3]]
    }

    /// Sets pixel `(x, y)` to `color`; every other pixel keeps its colour.
    pub fn put_pixel(&mut self, x: u32, y: u32, color: [u8; 4])
        requires
            old(self).wf(),
            x < old(self).width,
            y < old(self).height,
        ensures
            final(self).wf(),
            final(self).width == old(self).width,
            final(self).height == old(self).height,
            forall|xx: int, yy: int, c: int|
                0 <= xx < old(self).width && 0 <= yy < old(self).height && 0 <= c < 4
                    ==> #[trigger] final(self).channel(xx, yy, c) == if xx == x && yy == y {
                    color@[c]
                } else {
                    old(self).channel(xx, yy, c)
                },
    {
        let len = self.pixels.len();
        proof {
            lemma_pixel_in_frame(self.width as int, self.height as int, x as int, y as int);
        }
        let ghost before = *self;
        let i = (y as usize * self.width as usize + x as usize) * 4;
        self.pixels.set(i, color[0]);
        self.pixels.set(i + 1, color[1]);
        self.pixels.set(i + 2, color[2]);
        self.pixels.set(i + 3, color[3]);
        proof {
            assert forall|xx: int, yy: int, c: int|
                0 <= xx < before.width && 0 <= yy < before.height && 0 <= c < 4
                    implies #[trigger] self.channel(xx, yy, c) == if xx == x && yy == y {
                    color@[c]
                } else {
                    before.channel(xx, yy, c)
                } by {
                if !(xx == x && yy == y) {
                    lemma_pixels_distinct(before.width as int, xx, yy, x as int, y as int);
                    lemma_pixel_in_frame(before.width as int, before.height as int, xx, yy);
                    assert(self.pixels@[(yy * before.width + xx) * 4 + c] == before.pixels@[(yy * before.width + xx) * 4 + c]);
                } else {
                    assert(self.pixels@[i + c] == color@[c]);
                }
            }
        }
    }

    /// The sub-image of `width * height` pixels whose top-left corner is
    /// `(x, y)`, with the rectangle first clamped to the frame exactly as
    /// `image::imageops::crop_imm` clamps it.
    pub fn crop(&self, x: u32, y: u32, width: u32, height: u32) -> (out: RgbaFrame)
        requires
            self.wf(),
        ensures
            out.wf(),
            out.width == crop_extent(x, width, self.width),
            out.height == crop_extent(y, height, self.height),
            forall|xx: int, yy: int, c: int|
                0 <= xx < out.width && 0 <= yy < out.height && 0 <= c < 4 ==> #[trigger] out.channel(
                    xx,
                    yy,
                    c,
                ) == self.channel(crop_start(x, self.width) + xx, crop_start(y, self.height) + yy, c),
    {
        let x0 = if x < self.width { x } else { self.width };
        let y0 = if y < self.height { y } else { self.height };
        let w = if width < self.width - x0 { width } else { self.width - x0 };
        let h = if height < self.height - y0 { height } else { self.height - y0 };
        let mut pixels: Vec<u8> = Vec::new();
        let mut row: u32 = 0;
        while row < h
            invariant
                self.wf(),
                x0 as int + w <= self.width,
                y0 as int + h <= self.height,
                0 <= row <= h,
                pixels@.len() == row as int * w as int * 4,
                forall|xx: int, yy: int, c: int|
                    0 <= xx < w && 0 <= yy < row && 0 <= c < 4 ==> #[trigger] rgba_at(
                        pixels@,
                        w as int,
                        yy,
                        xx,
                        c,
                    ) == self.channel(x0 + xx, y0 + yy, c),
            decreases h - row,
        {
            let mut col: u32 = 0;
            while col < w
                invariant
                    self.wf(),
                    x0 as int + w <= self.width,
                    y0 as int + h <= self.height,
                    0 <= row < h,
                    0 <= col <= w,
                    pixels@.len() == (row as int * w as int + col) * 4,
                    forall|xx: int, yy: int, c: int|
                        0 <= xx < w && 0 <= yy <= row && 0 <= c < 4 && (yy < row || xx < col)
                            ==> #[trigger] rgba_at(pixels@, w as int, yy, xx, c) == self.channel(
                            x0 + xx,
                            y0 + yy,
                            c,
                        ),
                decreases w - col,
            {
                let color = self.pixel(x0 + col, y0 + row);
                let ghost before = pixels@;
                pixels.push(color[0]);
                pixels.push(color[1]);
                pixels.push(color[2]);
                pixels.push(color[3]);
                proof {
                    assert forall|xx: int, yy: int, c: int|
                        0 <= xx < w && 0 <= yy <= row && 0 <= c < 4 && (yy < row || xx < col + 1)
                            implies #[trigger] rgba_at(pixels@, w as int, yy, xx, c) == self.channel(
                            x0 + xx,
                            y0 + yy,
                            c,
                        ) by {
                        if yy < row {
                            lemma_row_before(w as int, xx, yy, col as int, row as int);
                            assert(rgba_at(pixels@, w as int, yy, xx, c) == rgba_at(before, w as int, yy, xx, c));
                        } else if xx < col {
                            assert(rgba_at(pixels@, w as int, yy, xx, c) == rgba_at(before, w as int, yy, xx, c));
                        }
                    }
                }
                col = col + 1;
            }
            proof {
                lemma_mul_is_distributive_add_other_way(w as int, row as int, 1);
            }
            row = row + 1;
        }
        proof {
            lemma_mul_is_commutative(w as int, h as int);
        }
        RgbaFrame { width: w, height: h, pixels }
    }

    /// Paints the filled disc of radius `r` centred on `(cx, cy)`: every
    /// pixel at offset `(dx, dy)` with `dx * dx + dy * dy <= r * r` that lies
    /// inside the frame takes `color`; nothing outside the frame is touched.
    pub fn paint_disc(&mut self, cx: i32, cy: i32, r: i32, color: [u8; 4])
        requires
            old(self).wf(),
            -32767 <= r <= 32767,
            r >= 0 ==> i32::MIN <= cx - r && cx + r <= i32::MAX && i32::MIN <= cy - r && cy + r
                <= i32::MAX,
        ensures
            final(self).wf(),
            final(self).width == old(self).width,
            final(self).height == old(self).height,
            forall|xx: int, yy: int, c: int|
                0 <= xx < old(self).width && 0 <= yy < old(self).height && 0 <= c < 4
                    ==> #[trigger] final(self).channel(xx, yy, c) == if disc_paints(old(self).width, old(self).height, xx - cx, yy - cy, r as int) {
                    color@[c]
                } else {
                    old(self).channel(xx, yy, c)
                },
    {
        let ghost orig = *self;
        // Like `u32 as i32`, a dimension beyond `i32::MAX` becomes negative,
        // so no pixel passes the bounds test.
        let w: i32 = if self.width <= 0x7fff_ffff { self.width as i32 } else { -1 };
        let h: i32 = if self.height <= 0x7fff_ffff { self.height as i32 } else { -1 };
        proof {
            assert(r * r <= 32767 * 32767) by (nonlinear_arith)
                requires -32767 <= r <= 32767;
            assert(r * r >= 0) by (nonlinear_arith);
        }
        let rr = r * r;
        let mut dy: i32 = -r;
        while dy <= r
            invariant
                self.wf(),
                self.width == orig.width,
                self.height == orig.height,
                w as int == (if self.width <= 0x7fff_ffff { self.width as int } else { -1 }),
                h as int == (if self.height <= 0x7fff_ffff { self.height as int } else { -1 }),
                -32767 <= r <= 32767,
                r >= 0 ==> i32::MIN <= cx - r && cx + r <= i32::MAX && i32::MIN <= cy - r && cy + r
                    <= i32::MAX,
                rr == r * r,
                r >= 0 ==> -r <= dy <= r + 1,
                r < 0 ==> dy == -r,
                forall|xx: int, yy: int, c: int|
                    0 <= xx < orig.width && 0 <= yy < orig.height && 0 <= c < 4
                        ==> #[trigger] self.channel(xx, yy, c) == if disc_paints(orig.width, orig.height, xx - cx, yy - cy, r as int)
                        && yy - cy < dy {
                        color@[c]
                    } else {
                        orig.channel(xx, yy, c)
                    },
            decreases r + 1 - dy,
        {
            let mut dx: i32 = -r;
            while dx <= r
                invariant
                    self.wf(),
                    self.width == orig.width,
                    self.height == orig.height,
                    w as int == (if self.width <= 0x7fff_ffff { self.width as int } else { -1 }),
                    h as int == (if self.height <= 0x7fff_ffff { self.height as int } else { -1 }),
                    0 <= r <= 32767,
                    i32::MIN <= cx - r && cx + r <= i32::MAX && i32::MIN <= cy - r && cy + r <= i32::MAX,
                    rr == r * r,
                    -r <= dy <= r,
                    -r <= dx <= r + 1,
                    forall|xx: int, yy: int, c: int|
                        0 <= xx < orig.width && 0 <= yy < orig.height && 0 <= c < 4
                            ==> #[trigger] self.channel(xx, yy, c) == if disc_paints(orig.width, orig.height, xx - cx, yy - cy, r as int)
                            && (yy - cy < dy || (yy - cy == dy && xx - cx < dx)) {
                            color@[c]
                        } else {
                            orig.channel(xx, yy, c)
                        },
                decreases r + 1 - dx,
            {
                proof {
                    assert(0 <= dx * dx <= r * r) by (nonlinear_arith)
                        requires -r <= dx <= r;
                    assert(0 <= dy * dy <= r * r) by (nonlinear_arith)
                        requires -r <= dy <= r;
                    assert(r * r <= 32767 * 32767) by (nonlinear_arith)
                        requires 0 <= r <= 32767;
                }
                if dx * dx + dy * dy <= rr {
                    let px = cx + dx;
                    let py = cy + dy;
                    if px >= 0 && px < w && py >= 0 && py < h {
                        let ghost before = *self;
                        self.put_pixel(px as u32, py as u32, color);
                        proof {
                            assert forall|xx: int, yy: int, c: int|
                                0 <= xx < orig.width && 0 <= yy < orig.height && 0 <= c < 4
                                    implies #[trigger] self.channel(xx, yy, c) == if disc_paints(
                                    orig.width,
                                    orig.height,
                                    xx - cx,
                                    yy - cy,
                                    r as int,
                                ) && (yy - cy < dy || (yy - cy == dy && xx - cx < dx + 1)) {
                                    color@[c]
                                } else {
                                    orig.channel(xx, yy, c)
                                } by {
                                assert(self.channel(xx, yy, c) == before.channel(xx, yy, c)
                                    || (xx == px && yy == py));
                            }
                        }
                    } else {
                        proof {
                            assert forall|xx: int, yy: int, c: int|
                                0 <= xx < orig.width && 0 <= yy < orig.height && 0 <= c < 4
                                    implies #[trigger] self.channel(xx, yy, c) == if disc_paints(
                                    orig.width,
                                    orig.height,
                                    xx - cx,
                                    yy - cy,
                                    r as int,
                                ) && (yy - cy < dy || (yy - cy == dy && xx - cx < dx + 1)) {
                                    color@[c]
                                } else {
                                    orig.channel(xx, yy, c)
                                } by {
                                if yy - cy == dy && xx - cx == dx {
                                    assert(!disc_paints(orig.width, orig.height, xx - cx, yy - cy, r as int));
                                }
                            }
                        }
                    }
                } else {
                    proof {
                        assert forall|xx: int, yy: int, c: int|
                            0 <= xx < orig.width && 0 <= yy < orig.height && 0 <= c < 4
                                implies #[trigger] self.channel(xx, yy, c) == if disc_paints(
                                orig.width,
                                orig.height,
                                xx - cx,
                                yy - cy,
                                r as int,
                            ) && (yy - cy < dy || (yy - cy == dy && xx - cx < dx + 1)) {
                                color@[c]
                            } else {
                                orig.channel(xx, yy, c)
                            } by {
                            if yy - cy == dy && xx - cx == dx {
                                assert(!disc_paints(orig.width, orig.height, xx - cx, yy - cy, r as int));
                            }
                        }
                    }
                }
                dx = dx + 1;
            }
            proof {
                assert forall|xx: int, yy: int, c: int|
                    0 <= xx < orig.width && 0 <= yy < orig.height && 0 <= c < 4
                        implies #[trigger] self.channel(xx, yy, c) == if disc_paints(orig.width, orig.height, xx - cx, yy - cy, r as int)
                        && yy - cy < dy + 1 {
                        color@[c]
                    } else {
                        orig.channel(xx, yy, c)
                    } by {
                    if yy - cy == dy && disc_paints(orig.width, orig.height, xx - cx, yy - cy, r as int) {
                        assert(xx - cx < dx);
                    }
                }
            }
            dy = dy + 1;
        }
        proof {
            assert forall|xx: int, yy: int, c: int|
                0 <= xx < orig.width && 0 <= yy < orig.height && 0 <= c < 4
                    implies #[trigger] self.channel(xx, yy, c) == if disc_paints(orig.width, orig.height, xx - cx, yy - cy, r as int) {
                    color@[c]
                } else {
                    orig.channel(xx, yy, c)
                } by {
                if disc_paints(orig.width, orig.height, xx - cx, yy - cy, r as int) {
                    assert(yy - cy < dy);
                }
            }
        }
    }
}

/// The offset `(dx, dy)` lies in the filled disc of radius `r`.
pub open spec fn in_disc(dx: int, dy: int, r: int) -> bool {
    &&& r >= 0
    &&& -r <= dx <= r
    &&& -r <= dy <= r
    &&& dx * dx + dy * dy <= r * r
}

/// Whether painting a disc writes the pixel at offset `(dx, dy)` from its
/// centre in a frame of `width * height` pixels: the offset lies in the disc
/// and both dimensions are representable as `i32` pixel coordinates.
pub open spec fn disc_paints(width: u32, height: u32, dx: int, dy: int, r: int) -> bool {
    &&& width <= i32::MAX
    &&& height <= i32::MAX
    &&& in_disc(dx, dy, r)
}

/// The first column (or row) of a crop starting at `start` in an image
/// `extent` pixels wide (or tall).
pub open spec fn crop_start(start: u32, extent: u32) -> int {
    if start < extent { start as int } else { extent as int }
}

/// The width (or height) of a crop of `size` pixels starting at `start`.
pub open spec fn crop_extent(start: u32, size: u32, extent: u32) -> u32 {
    let s = crop_start(start, extent);
    if (size as int) < extent - s { size } else { (extent - s) as u32 }
}

/// The pixel rectangle `(x, y, width, height)` covered by a selection whose
/// pixel bounds are `x..right` by `y..bottom`, after clamping it to an image
/// of `image_width * image_height` pixels; `None` when nothing is left.
pub open spec fn spec_clamp_pixel_box(
    x: u32,
    y: u32,
    right: u32,
    bottom: u32,
    image_width: u32,
    image_height: u32,
) -> Option<(u32, u32, u32, u32)> {
    let right = if right < image_width { right } else { image_width };
    let bottom = if bottom < image_height { bottom } else { image_height };
    let x = if x < right { x } else { right };
    let y = if y < bottom { y } else { bottom };
    let w = (right - x) as u32;
    let h = (bottom - y) as u32;
    if w == 0 || h == 0 {
        None
    } else {
        Some((x, y, w, h))
    }
}

/// Clamps the pixel bounds of a selection to the image.
pub fn clamp_pixel_box(
    x: u32,
    y: u32,
    right: u32,
    bottom: u32,
    image_width: u32,
    image_height: u32,
) -> (res: Option<(u32, u32, u32, u32)>)
    ensures
        res == spec_clamp_pixel_box(x, y, right, bottom, image_width, image_height),
{
    let right = if right < image_width { right } else { image_width };
    let bottom = if bottom < image_height { bottom } else { image_height };
    let x = if x < right { x } else { right };
    let y = if y < bottom { y } else { bottom };
    let w = right - x;
    let h = bottom - y;
    if w == 0 || h == 0 {
        None
    } else {
        Some((x, y, w, h))
    }
}

/// A clamped selection box is non-empty and lies inside the image, so
/// cropping the frame to it yields exactly `w * h` pixels taken from `(x, y)`
/// onward: the crop never has to shrink it.
pub proof fn clamped_box_crops_exactly(
    x: u32,
    y: u32,
    right: u32,
    bottom: u32,
    image_width: u32,
    image_height: u32,
)
    requires
        spec_clamp_pixel_box(x, y, right, bottom, image_width, image_height) is Some,
    ensures
        ({
            let (bx, by, bw, bh) = spec_clamp_pixel_box(x, y, right, bottom, image_width, image_height).unwrap();
            &&& bw > 0 && bh > 0
            &&& bx + bw <= image_width
            &&& by + bh <= image_height
            &&& crop_start(bx, image_width) == bx
            &&& crop_start(by, image_height) == by
            &&& crop_extent(bx, bw, image_width) == bw
            &&& crop_extent(by, bh, image_height) == bh
        }),
{
}

/// The clamped box is the part of the selection that lies inside the image:
/// it starts at the selection's own corner `(x, y)` and ends at the nearer of
/// the selection's and the image's right and bottom edges; when that part
/// is empty there is no box.
pub proof fn clamped_box_is_the_visible_selection(
    x: u32,
    y: u32,
    right: u32,
    bottom: u32,
    image_width: u32,
    image_height: u32,
)
    ensures
        ({
            let r = if right < image_width { right } else { image_width };
            let b = if bottom < image_height { bottom } else { image_height };
            spec_clamp_pixel_box(x, y, right, bottom, image_width, image_height) == if x < r && y < b {
                Some((x, y, (r - x) as u32, (b - y) as u32))
            } else {
                None::<(u32, u32, u32, u32)>
            }
        }),
        spec_clamp_pixel_box(x, y, right, bottom, image_width, image_height) matches Some((bx, by, bw, bh))
            ==> bx == x && by == y && bx + bw <= right && by + bh <= bottom && bx + bw <= image_width
            && by + bh <= image_height,
{
}

proof fn lemma_pixel_in_frame(width: int, height: int, x: int, y: int)
    requires
        0 <= x < width,
        0 <= y < height,
    ensures
        (y * width + x) * 4 + 4 <= width * height * 4,
        0 <= y * width,
{
    lemma_mul_inequality(y + 1, height, width);
    lemma_mul_is_distributive_add_other_way(width, y, 1);
    lemma_mul_is_commutative(width, height);
    lemma_mul_inequality(0, y, width);
}

proof fn lemma_row_before(width: int, xx: int, yy: int, x: int, y: int)
    requires
        0 <= xx < width,
        0 <= yy < y,
        0 <= x,
    ensures
        yy * width + xx < y * width + x,
{
    lemma_mul_inequality(yy + 1, y, width);
    lemma_mul_is_distributive_add_other_way(width, yy, 1);
}

proof fn lemma_pixels_distinct(width: int, xx: int, yy: int, x: int, y: int)
    requires
        0 <= xx < width,
        0 <= x < width,
        0 <= yy,
        0 <= y,
        !(xx == x && yy == y),
    ensures
        (yy * width + xx) * 4 + 4 <= (y * width + x) * 4 || (y * width + x) * 4 + 4 <= (yy * width
            + xx) * 4,
{
    if yy < y {
        lemma_row_before(width, xx, yy, x, y);
    } else if y < yy {
        lemma_row_before(width, x, y, xx, yy);
    }
}

/// The PNG file that the `image` crate writes for an RGBA8 image of
/// `width * height` pixels with these bytes.
pub uninterp spec fn png_encoding(width: u32, height: u32, rgba: Seq<u8>) -> Seq<u8>;

/// Encodes RGBA8 pixels as PNG through `image::DynamicImage::write_to` with
/// `image::ImageFormat::Png`, writing into an in-memory buffer. Trusted:
/// the bytes are the `image` crate's PNG encoding of the given size and
/// pixels; nothing is claimed about their content.
#[verifier::external_body]
fn write_png(width: u32, height: u32, rgba: Vec<u8>) -> (bytes: Vec<u8>)
    requires
        rgba@.len() == width as int * height as int * 4,
    ensures
        bytes@ == png_encoding(width, height, rgba@),
{
    let mut buffer: Vec<u8> = Vec::new();
    if let Some(image) = image::RgbaImage::from_raw(width, height, rgba) {
        let _ = image::DynamicImage::ImageRgba8(image).write_to(
            &mut std::io::Cursor::new(&mut buffer),
            image::ImageFormat::Png,
        );
    }
    buffer
}

impl RgbaFrame {
    /// The frame encoded as a PNG file, as it is handed to the clipboard.
    pub fn into_png(self) -> (bytes: Vec<u8>)
        requires
            self.wf(),
        ensures
            bytes@ == png_encoding(self.width, self.height, self.pixels@),
    {
        write_png(self.width, self.height, self.pixels)
    }
}

/// One pixel as the X11 capturer delivers it: blue, green, red, then a
/// fourth byte that is ignored.
#[derive(Debug, Clone, Copy, PartialEq, Eq, Structural)]
pub struct Bgr8 {
    pub b: u8,
    pub g: u8,
    pub r: u8,
    pub a: u8,
}

/// Packs X11 pixels as R, G, B bytes, three per pixel.
pub fn bgr_to_rgb(pixels: &Vec<Bgr8>) -> (rgb: Vec<u8>)
    requires
        pixels@.len() * 3 <= usize::MAX,
    ensures
        rgb@.len() == pixels@.len() * 3,
        forall|i: int|
            0 <= i < pixels@.len() ==> {
                &&& #[trigger] rgb@[3 * i] == pixels@[i].r
                &&& rgb@[3 * i + 1] == pixels@[i].g
                &&& rgb@[3 * i + 2] == pixels@[i].b
            },
{
    let mut rgb: Vec<u8> = Vec::new();
    let mut i: usize = 0;
    while i < pixels.len()
        invariant
            0 <= i <= pixels@.len(),
            rgb@.len() == i * 3,
            forall|k: int|
                0 <= k < i ==> {
                    &&& #[trigger] rgb@[3 * k] == pixels@[k].r
                    &&& rgb@[3 * k + 1] == pixels@[k].g
                    &&& rgb@[3 * k + 2] == pixels@[k].b
                },
        decreases pixels@.len() - i,
    {
        let p = pixels[i];
        let ghost before = rgb@;
        rgb.push(p.r);
        rgb.push(p.g);
        rgb.push(p.b);
        proof {
            assert forall|k: int| 0 <= k < i + 1 implies {
                &&& #[trigger] rgb@[3 * k] == pixels@[k].r
                &&& rgb@[3 * k + 1] == pixels@[k].g
                &&& rgb@[3 * k + 2] == pixels@[k].b
            } by {
                if k < i {
                    assert(rgb@[3 * k] == before[3 * k]);
                    assert(rgb@[3 * k + 1] == before[3 * k + 1]);
                    assert(rgb@[3 * k + 2] == before[3 * k + 2]);
                }
            }
        }
        i = i + 1;
    }
    rgb
}

/// Packs X11 pixels as opaque RGBA, four bytes per pixel with alpha 255.
pub fn bgr_to_opaque_rgba(pixels: &Vec<Bgr8>) -> (rgba: Vec<u8>)
    requires
        pixels@.len() * 4 <= usize::MAX,
    ensures
        rgba@.len() == pixels@.len() * 4,
        forall|i: int|
            0 <= i < pixels@.len() ==> {
                &&& #[trigger] rgba@[4 * i] == pixels@[i].r
                &&& rgba@[4 * i + 1] == pixels@[i].g
                &&& rgba@[4 * i + 2] == pixels@[i].b
                &&& rgba@[4 * i + 3] == 255
            },
{
    let mut rgba: Vec<u8> = Vec::new();
    let mut i: usize = 0;
    while i < pixels.len()
        invariant
            0 <= i <= pixels@.len(),
            rgba@.len() == i * 4,
            forall|k: int|
                0 <= k < i ==> {
                    &&& #[trigger] rgba@[4 * k] == pixels@[k].r
                    &&& rgba@[4 * k + 1] == pixels@[k].g
                    &&& rgba@[4 * k + 2] == pixels@[k].b
                    &&& rgba@[4 * k + 3] == 255
                },
        decreases pixels@.len() - i,
    {
        let p = pixels[i];
        let ghost before = rgba@;
        rgba.push(p.r);
        rgba.push(p.g);
        rgba.push(p.b);
        rgba.push(255);
        proof {
            assert forall|k: int| 0 <= k < i + 1 implies {
                &&& #[trigger] rgba@[4 * k] == pixels@[k].r
                &&& rgba@[4 * k + 1] == pixels@[k].g
                &&& rgba@[4 * k + 2] == pixels@[k].b
                &&& rgba@[4 * k + 3] == 255
            } by {
                if k < i {
                    assert(rgba@[4 * k] == before[4 * k]);
                    assert(rgba@[4 * k + 1] == before[4 * k + 1]);
                    assert(rgba@[4 * k + 2] == before[4 * k + 2]);
                    assert(rgba@[4 * k + 3] == before[4 * k + 3]);
                }
            }
        }
        i = i + 1;
    }
    rgba
}

} // verus!
