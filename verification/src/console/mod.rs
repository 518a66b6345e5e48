//! Text output on the framebuffer.
pub mod display;
pub mod framebuffer;
