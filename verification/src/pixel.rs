//! Packed display pixels: one 32-bit word per pixel, the top byte reserved
//! (alpha), then red, green and blue, eight bits each.

use vstd::prelude::*;

verus! {

/// The top byte of a packed pixel.
pub open spec fn alpha_of(word: u32) -> int {
    word as int / 0x100_0000
}

/// The red channel of a packed pixel.
pub open spec fn red_of(word: u32) -> int {
    (word as int / 0x1_0000) % 0x100
}

/// The green channel of a packed pixel.
pub open spec fn green_of(word: u32) -> int {
    (word as int / 0x100) % 0x100
}

/// The blue channel of a packed pixel.
pub open spec fn blue_of(word: u32) -> int {
    word as int % 0x100
}

/// The number whose four bytes are, from the top, `alpha`, `r`, `g` and `b`.
pub open spec fn word_of(alpha: int, r: int, g: int, b: int) -> int {
    alpha * 0x100_0000 + r * 0x1_0000 + g * 0x100 + b
}

/// A display colour quantised to eight bits per channel.
#[derive(Clone, Copy, Debug, PartialEq, Eq, Structural)]
pub struct Rgb {
    pub r: u8,
    pub g: u8,
    pub b: u8,
}

impl Rgb {
    /// The word that results from writing this colour over `prev`: the
    /// colour fills the three low bytes, the top byte of `prev` stays.
    pub open spec fn spec_pack(self, prev: u32) -> u32 {
        word_of(alpha_of(prev), self.r as int, self.g as int, self.b as int) as u32
    }

    /// Writes the colour into a packed pixel, keeping the pixel's top byte.
    pub fn pack(self, prev: u32) -> (word: u32)
        ensures
            word == self.spec_pack(prev),
            alpha_of(word) == alpha_of(prev),
            red_of(word) == self.r,
            green_of(word) == self.g,
            blue_of(word) == self.b,
    {
        let r: u32 = self.r as u32;
        let g: u32 = self.g as u32;
        let b: u32 = self.b as u32;
        let word: u32 = (prev & 0xff00_0000) | (r << 16) | (g << 8) | b;
        assert(word == (prev / 0x100_0000) * 0x100_0000 + r * 0x1_0000 + g * 0x100 + b)
            by (bit_vector)
            requires
                word == (prev & 0xff00_0000) | (r << 16) | (g << 8) | b,
                r < 0x100,
                g < 0x100,
                b < 0x100,
        ;
        proof {
            lemma_pack_channels(self, prev);
        }
        word
    }
}

/// Writing a colour over a pixel leaves the pixel's top byte as it was, and
/// the three channels read back from the result are the colour's.
pub proof fn lemma_pack_channels(color: Rgb, prev: u32)
    ensures
        color.spec_pack(prev) == word_of(
            alpha_of(prev),
            color.r as int,
            color.g as int,
            color.b as int,
        ),
        alpha_of(color.spec_pack(prev)) == alpha_of(prev),
        red_of(color.spec_pack(prev)) == color.r,
        green_of(color.spec_pack(prev)) == color.g,
        blue_of(color.spec_pack(prev)) == color.b,
{
    let a: u32 = prev / 0x100_0000;
    let r: u32 = color.r as u32;
    let g: u32 = color.g as u32;
    let b: u32 = color.b as u32;
    assert({
        let sum = a * 0x100_0000 + r * 0x1_0000 + g * 0x100 + b;
        &&& sum < 0x1_0000_0000
        &&& sum / 0x100_0000 == a
        &&& (sum / 0x1_0000) % 0x100 == r
        &&& (sum / 0x100) % 0x100 == g
        &&& sum % 0x100 == b
    }) by (bit_vector)
        requires
            a < 0x100,
            r < 0x100,
            g < 0x100,
            b < 0x100,
    ;
}

/// Of the pixel that a colour is written over, only the top byte matters.
pub proof fn lemma_pack_reads_top_byte(color: Rgb, prev: u32, other: u32)
    requires
        alpha_of(prev) == alpha_of(other),
    ensures
        color.spec_pack(prev) == color.spec_pack(other),
{
}

/// Of two colours written one after the other only the second shows, so
/// writing a colour a second time changes nothing.
pub proof fn lemma_pack_overwrites(first: Rgb, second: Rgb, prev: u32)
    ensures
        second.spec_pack(first.spec_pack(prev)) == second.spec_pack(prev),
{
    lemma_pack_channels(first, prev);
}

} // verus!
