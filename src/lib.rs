//! Shannon entropy of an image's pixel distribution: the verified part.
//!
//! An image is held as a row-major grid of RGB triples. Each pixel is reduced
//! to a bin key (a luma byte in grayscale mode, the packed triple in color
//! mode), and the keys are counted into a histogram. The histogram is the
//! exact, integer part of the computation; the floating-point reduction
//! `-sum(p * log2(p))` over its counts is done by the caller.


pub mod histogram;
pub mod laws;
pub mod pixel;

pub use histogram::{histogram, EntropyError, Image};
pub use pixel::{bin_key, Mode, Rgb};
