//! A verified stereo delay ("echo") effect: a fixed-capacity delay line of
//! interleaved stereo samples, and the frame processor that serves a duplex
//! audio callback by mixing each live frame with the frame heard exactly one
//! delay-length earlier.

pub mod config;
pub mod delay;
pub mod mixing;
pub mod processor;
