//! A verified core for an animated rainbow-stripe background with a
//! pixel-art-upscaled text label.
//!
//! The library holds the pixel-processing pipeline: packed-pixel codecs for
//! the 2-bit display surface and the 1-bit glyph mask (`bitplane`), the
//! scale3x edge-directed upscaler (`scale3x`), the one-time glyph prescale
//! pass that turns a rasterized label into an enlarged mask (`prescale`),
//! and the per-frame palette-cycling and stripe-scrolling state machine
//! (`engine`). Host concerns — the visible framebuffer, palette registers,
//! drawing primitives, the frame loop — stay outside; every function here
//! works on plain buffers and integers and carries a proved contract.

pub mod bitplane;
pub mod engine;
pub mod prescale;
pub mod scale3x;
