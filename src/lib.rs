//! A codec for farbfeld-style raster images: a fixed magic tag, the width and
//! height as big-endian 32-bit integers, then the pixel rows, top to bottom,
//! with no padding and no compression.
//!
//! The magic tag and the number of bytes per pixel are the two constants that
//! tell sibling formats apart; both are carried by a [`Format`] value, so one
//! engine serves every variant.

mod error;
mod format;
mod decoder;
mod encoder;
pub mod header;
pub mod laws;

pub use error::Error;
pub use format::Format;
pub use decoder::{Decoder, DecoderModel};
pub use encoder::{encoded, payload_len, FarbfeldEncoder};
