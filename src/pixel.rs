use vstd::prelude::*;

verus! {

/// A pixel packed into 24 bits: red in the low byte, green in the middle byte,
/// blue in the high byte.
pub type Color32 = i64;

/// The red channel of a packed pixel (its low byte).
pub open spec fn red_of(p: Color32) -> u8 {
    (p & 0xff) as u8
}

/// The green channel of a packed pixel (its middle byte).
pub open spec fn green_of(p: Color32) -> u8 {
    ((p >> 8) & 0xff) as u8
}

/// The blue channel of a packed pixel (its high byte).
pub open spec fn blue_of(p: Color32) -> u8 {
    ((p >> 16) & 0xff) as u8
}

/// The packed value of three channel bytes.
pub open spec fn packed(r: u8, g: u8, b: u8) -> int {
    r as int + 256 * (g as int) + 65536 * (b as int)
}

/// Packs three channel bytes into one pixel.
pub fn pack_rgb(r: u8, g: u8, b: u8) -> (p: Color32)
    ensures
        p as int == packed(r, g, b),
        0 <= p < 0x100_0000,
{
    let p = (b as i64) << 16u64 | (g as i64) << 8u64 | (r as i64);
    assert(p as int == r as int + 256 * (g as int) + 65536 * (b as int)) by (bit_vector)
        requires
            p == (b as i64) << 16u64 | (g as i64) << 8u64 | (r as i64),
    ;
    p
}

/// The three channel bytes of a pixel, red first.
pub fn pixel_channels(p: Color32) -> (c: (u8, u8, u8))
    ensures
        c == (red_of(p), green_of(p), blue_of(p)),
{
    ((p & 0xff) as u8, ((p >> 8u64) & 0xff) as u8, ((p >> 16u64) & 0xff) as u8)
}

/// Packing three channel bytes and reading the channels back gives the same bytes.
pub proof fn lemma_channels_of_packed(r: u8, g: u8, b: u8)
    ensures
        red_of(packed(r, g, b) as i64) == r,
        green_of(packed(r, g, b) as i64) == g,
        blue_of(packed(r, g, b) as i64) == b,
{
    let p = (r as int + 256 * (g as int) + 65536 * (b as int)) as i64;
    assert((p & 0xff) as u8 == r && ((p >> 8) & 0xff) as u8 == g && ((p >> 16) & 0xff) as u8 == b)
        by (bit_vector)
        requires
            p == (r as int + 256 * (g as int) + 65536 * (b as int)) as i64,
    ;
}

} // verus!
