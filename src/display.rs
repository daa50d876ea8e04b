use vstd::prelude::*;

use crate::machine::NPIXELS;

verus! {

/// A colour to paint lit pixels with.
#[derive(Clone, Copy, Debug, PartialEq, Eq, Structural)]
pub struct Color {
    pub red: u8,
    pub green: u8,
    pub blue: u8,
}

/// Channel `i % 3` (red, green, blue) of the RGB image of `bitmap`: the
/// colour where the pixel `i / 3` is lit, black where it is off.
pub open spec fn rgb_byte(bitmap: Seq<u8>, color: Color, i: int) -> u8 {
    if bitmap[i / 3] == 0 {
        0
    } else if i % 3 == 0 {
        color.red
    } else if i % 3 == 1 {
        color.green
    } else {
        color.blue
    }
}

/// The RGB image of `bitmap`, three bytes per pixel in the same order.
pub open spec fn rgb_of(bitmap: Seq<u8>, color: Color) -> Seq<u8> {
    Seq::new(3 * bitmap.len(), |i: int| rgb_byte(bitmap, color, i))
}

/// Turns a frame buffer into a packed 24-bit RGB image.
pub fn frame_rgb(bitmap: &[u8; NPIXELS], color: Color) -> (rgb: Vec<u8>)
    ensures
        rgb@ == rgb_of(bitmap@, color),
{
    let mut rgb: Vec<u8> = Vec::new();
    let mut p: usize = 0;
    while p < NPIXELS
        invariant
            p <= NPIXELS,
            rgb@ == rgb_of(bitmap@, color).take(3 * p),
        decreases NPIXELS - p,
    {
        let enabled: u8 = if bitmap[p] != 0 { 1 } else { 0 };
        rgb.push(enabled * color.red);
        rgb.push(enabled * color.green);
        rgb.push(enabled * color.blue);
        proof {
            let n = 3 * p as int;
            assert(n / 3 == p && (n + 1) / 3 == p && (n + 2) / 3 == p);
            assert(n % 3 == 0 && (n + 1) % 3 == 1 && (n + 2) % 3 == 2);
            assert(rgb@ =~= rgb_of(bitmap@, color).take(3 * (p + 1)));
        }
        p = p + 1;
    }
    assert(rgb_of(bitmap@, color).take(3 * NPIXELS as int) =~= rgb_of(bitmap@, color));
    rgb
}

} // verus!
