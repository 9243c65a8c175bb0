//! A clock widget over a stack of pixel-buffer transforms: a background fill,
//! procedural fire and wave layers, and a time overlay, composed in order each
//! tick by a compositor that owns the frame buffer.
pub mod color;
pub mod convolution;
pub mod base;
pub mod wave;
pub mod fire;
pub mod time;
pub mod rising;
pub mod layers;
pub mod window;
