//! The core of a compositing window manager: the wire protocol between
//! clients and the window manager, the window store with its Z-order and
//! damage, the redraw onto the framebuffer surface, the dispatch of mouse
//! input, and what a client needs on its side.
//!
//! The library decides and computes; it does no input or output. Reading
//! sockets and devices, presenting the surface and sharing memory with
//! clients is left to the program around it, which hands in what it has
//! read and sends out what the library has queued.

use vstd::prelude::*;

/// Bitmap images with 32 bits per pixel.
pub mod bmp;
/// Drawing pixels, lines, rectangles, circles and rounded rectangles.
pub mod canvas;
/// What a client does with what the window manager sends.
pub mod client;
/// The packets between a client and the window manager, and the session
/// of a client.
pub mod com;
/// Pixels and the alpha blend.
pub mod fb;
/// The framebuffer surface and the draws on it.
pub mod framebuffer;
/// The pool of window ids.
pub mod ids;
/// The dispatch of mouse input.
pub mod mice;
/// Windows, their store, their order and their damage.
pub mod window;
/// The Z-ordered lists of window ids.
pub mod zlist;

verus! {

/// The abstract socket address on which the window manager accepts clients.
pub const CONNECT_ABSTRACT_ADDR: &'static str = "opal_wm::connect";

} // verus!
