use vstd::prelude::*;

pub mod capture;
pub mod environment;
pub mod icons;
pub mod overlay;
pub mod pixels;
pub mod qimage;
pub mod shortcuts;
pub mod text;
pub mod trigger;

verus! {
} // verus!
