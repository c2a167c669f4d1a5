//! Colours, and the text by which a style names one.

use vstd::prelude::*;

verus! {

/// A colour of four 8-bit channels.
#[derive(Clone, Copy, Debug, PartialEq, Eq, Structural)]
pub struct Color {
    pub r: u8,
    pub g: u8,
    pub b: u8,
    pub a: u8,
}

/// The digit for a value below 16, letters in upper case.
pub open spec fn hex_digit(value: int) -> char {
    seq!['0', '1', '2', '3', '4', '5', '6', '7', '8', '9', 'A', 'B', 'C', 'D', 'E', 'F'][value]
}

/// The two digits of one channel.
pub open spec fn hex_pair(channel: u8) -> Seq<char> {
    seq![hex_digit(channel as int / 16), hex_digit(channel as int % 16)]
}

/// A colour as a style writes it: `#`, then red, green and blue with two
/// digits each. Alpha is left out.
pub open spec fn hex_text(color: Color) -> Seq<char> {
    seq!['#'] + hex_pair(color.r) + hex_pair(color.g) + hex_pair(color.b)
}

/// Black, fully opaque.
pub open spec fn black() -> Color {
    Color { r: 0, g: 0, b: 0, a: 255 }
}

impl Color {
    /// Black, fully opaque: the colour that paths get when the caller names
    /// no fill.
    pub fn black() -> (color: Color)
        ensures
            color == black(),
    {
        named_black()
    }

    /// The colour as a style writes it.
    pub fn to_hex_string(&self) -> (text: String)
        ensures
            text@ == hex_text(*self),
    {
        hex_string(self.r, self.g, self.b)
    }
}

/// Calls `Color::color` of visioncortex with `ColorName::Black`, which gives
/// red, green and blue 0 and alpha 255.
#[verifier::external_body]
fn named_black() -> (color: Color)
    ensures
        color == black(),
{
    let c = visioncortex::Color::color(&visioncortex::ColorName::Black);
    Color { r: c.r, g: c.g, b: c.b, a: c.a }
}

/// Calls `Color::to_hex_string` of visioncortex, which writes `#` and then
/// red, green and blue as two upper-case hexadecimal digits each.
#[verifier::external_body]
fn hex_string(r: u8, g: u8, b: u8) -> (text: String)
    ensures
        text@ == hex_text(Color { r, g, b, a: 255 }),
{
    visioncortex::Color::new(r, g, b).to_hex_string()
}

} // verus!
