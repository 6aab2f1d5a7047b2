//! The instruction set: its decoded form and the decoder.
pub mod decoder;
