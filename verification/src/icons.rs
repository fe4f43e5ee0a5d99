//! Toolbar icons: an SVG document rasterised at its own size into an RGBA frame.
use vstd::prelude::*;
use crate::pixels::RgbaFrame;

verus! {

/// The size, in whole pixels, that `resvg::usvg::Tree::from_data` with
/// default options gives an SVG document (`Tree::size().to_int_size()`):
/// it is read from the document's own `width`, `height` and `viewBox`.
pub uninterp spec fn svg_pixel_size(svg: Seq<u8>) -> (u32, u32);

/// Parses an SVG document with `resvg::usvg::Tree::from_data` (default
/// options) and renders it with `resvg::render` into a
/// `resvg::tiny_skia::Pixmap` of the document's size, rounded to whole
/// pixels; returns that size and the pixmap's RGBA bytes (premultiplied, as
/// tiny-skia stores them), or `None` when the document does not parse or
/// the pixmap cannot be allocated. Trusted: a rendering has four bytes per
/// pixel, and the size is the document's size. The pixels themselves are left unsaid: an `<image>` that refers
/// to a file is read from disk, so they are not a function of the bytes alone.
#[verifier::external_body]
fn render_svg_rgba(svg: &[u8]) -> (res: Option<(u32, u32, Vec<u8>)>)
    ensures
        res matches Some((w, h, px)) ==> px@.len() == w as int * h as int * 4 && (w, h)
            == svg_pixel_size(svg@),
{
    let options = resvg::usvg::Options::default();
    let tree = resvg::usvg::Tree::from_data(svg, &options).ok()?;
    let size = tree.size().to_int_size();
    let mut pixmap = resvg::tiny_skia::Pixmap::new(size.width(), size.height())?;
    resvg::render(&tree, resvg::tiny_skia::Transform::identity(), &mut pixmap.as_mut());
    Some((size.width(), size.height(), pixmap.take()))
}

/// The frame of a rendering: `width * height` pixels of four bytes each,
/// or `None` when there is no rendering or its bytes do not fill that size.
pub fn icon_frame(rendered: Option<(u32, u32, Vec<u8>)>) -> (res: Option<RgbaFrame>)
    ensures
        match rendered {
            Some((w, h, px)) => if px@.len() == w as int * h as int * 4 {
                res matches Some(f) && f.wf() && f.width == w && f.height == h && f.pixels@ == px@
            } else {
                res is None
            },
            None => res is None,
        },
{
    match rendered {
        Some((width, height, pixels)) => RgbaFrame::from_rgba(width, height, pixels),
        None => None,
    }
}

/// Rasterises an SVG icon at its own size. Whatever the renderer returns,
/// a frame that comes back has the document's size and holds exactly
/// `width * height` pixels.
pub fn render_icon(svg: &[u8]) -> (res: Option<RgbaFrame>)
    ensures
        res matches Some(f) ==> f.wf() && (f.width, f.height) == svg_pixel_size(svg@),
{
    icon_frame(render_svg_rgba(svg))
}

} // verus!
