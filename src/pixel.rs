use image::Pixel;
use vstd::prelude::*;

verus! {

/// One pixel as its three 8-bit channels.
#[derive(Clone, Copy, Debug, PartialEq, Eq, Structural)]
pub struct Rgb {
    pub r: u8,
    pub g: u8,
    pub b: u8,
}

/// Which reduction turns a pixel into a histogram bin.
#[derive(Clone, Copy, Debug, PartialEq, Eq, Structural)]
pub enum Mode {
    /// One bin per luma byte, 256 possible bins.
    Grayscale,
    /// One bin per distinct RGB triple.
    Color,
}

/// Luma of an RGB triple with the sRGB (ITU-R BT.709) weights
/// 0.2126, 0.7152 and 0.0722, rounded down.
pub open spec fn luma_spec(r: u8, g: u8, b: u8) -> int {
    (2126 * r + 7152 * g + 722 * b) / 10000
}

/// The triple packed into one integer, `r << 16 | g << 8 | b`.
pub open spec fn packed_spec(p: Rgb) -> int {
    p.r * 65536 + p.g * 256 + p.b
}

/// The bin that a pixel falls into under a mode.
pub open spec fn bin_key_spec(p: Rgb, mode: Mode) -> u32 {
    match mode {
        Mode::Grayscale => luma_spec(p.r, p.g, p.b) as u32,
        Mode::Color => packed_spec(p) as u32,
    }
}

/// Relies on `image::Rgb::to_luma` for `u8` channels, which computes
/// `(2126 * r + 7152 * g + 722 * b) / 10000` in `u32` and clamps it to a
/// byte (the clamp never applies, as the weights add up to the divisor).
#[verifier::external_body]
fn rgb_to_luma(r: u8, g: u8, b: u8) -> (l: u8)
    ensures
        l as int == luma_spec(r, g, b),
{
    image::Rgb([r, g, b]).to_luma().0[0]
}

/// The bin that pixel `p` falls into: its luma byte in grayscale mode, the
/// packed triple in color mode.
pub fn bin_key(p: Rgb, mode: Mode) -> (k: u32)
    ensures
        k == bin_key_spec(p, mode),
        mode == Mode::Grayscale ==> k as int == luma_spec(p.r, p.g, p.b) && k < 256,
        mode == Mode::Color ==> k as int == packed_spec(p) && k < 16777216,
{
    match mode {
        Mode::Grayscale => {
            let l = rgb_to_luma(p.r, p.g, p.b);
            l as u32
        },
        Mode::Color => (p.r as u32) * 65536 + (p.g as u32) * 256 + (p.b as u32),
    }
}

} // verus!
