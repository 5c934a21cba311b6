//! Scrolling screenshots: the logic of capturing a region while it scrolls and of stitching the
//! captured frames into one tall image.

use vstd::prelude::*;

pub mod capture_laws;
pub mod capture_loop;
pub mod capture_state;
pub mod cli;
pub mod drawing_laws;
pub mod extremum;
pub mod frame;
pub mod loader;
pub mod overlay;
pub mod overlay_laws;
pub mod screencopy;
pub mod scroll_laws;
pub mod selector;
pub mod selector_laws;
pub mod stitch;
pub mod stitch_laws;

verus! {

/// A rectangle of the screen.
#[derive(Debug, Clone, Copy, PartialEq, Eq, Structural)]
pub struct Rect {
    pub x: i32,
    pub y: i32,
    pub width: u32,
    pub height: u32,
}

} // verus!
