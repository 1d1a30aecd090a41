//! Colours with four byte channels, and their saturating arithmetic.

use vstd::prelude::*;
use crate::double::Double;

verus! {

/// A colour: red, green, blue and opacity, one byte each.
#[derive(Debug, Clone, Copy, PartialEq, Eq, Structural)]
pub struct Color {
    pub r: u8,
    pub g: u8,
    pub b: u8,
    pub a: u8,
}

/// The sum of two channels, held at 255.
pub open spec fn saturating_sum(u: u8, v: u8) -> u8 {
    if u + v > 255 {
        255u8
    } else {
        (u + v) as u8
    }
}

/// Adds two channels; a sum above 255 gives 255.
pub fn clamped_add(u: u8, v: u8) -> (sum: u8)
    ensures
        sum == saturating_sum(u, v),
{
    let wide: u16 = u as u16 + v as u16;
    if wide > 255 {
        255
    } else {
        wide as u8
    }
}

impl Color {
    /// Opaque red.
    pub fn red() -> (c: Color)
        ensures
            c == (Color { r: 0xff, g: 0, b: 0, a: 0xff }),
    {
        Color { r: 0xff, g: 0, b: 0, a: 0xff }
    }

    /// Opaque green.
    pub fn green() -> (c: Color)
        ensures
            c == (Color { r: 0, g: 0xff, b: 0, a: 0xff }),
    {
        Color { r: 0, g: 0xff, b: 0, a: 0xff }
    }

    /// Opaque blue.
    pub fn blue() -> (c: Color)
        ensures
            c == (Color { r: 0, g: 0, b: 0xff, a: 0xff }),
    {
        Color { r: 0, g: 0, b: 0xff, a: 0xff }
    }

    /// Opaque white.
    pub fn white() -> (c: Color)
        ensures
            c == (Color { r: 0xff, g: 0xff, b: 0xff, a: 0xff }),
    {
        Color { r: 0xff, g: 0xff, b: 0xff, a: 0xff }
    }

    /// Black without opacity: every channel zero.
    pub fn black() -> (c: Color)
        ensures
            c == (Color { r: 0, g: 0, b: 0, a: 0 }),
    {
        Color { r: 0, g: 0, b: 0, a: 0 }
    }

    pub fn new(r: u8, g: u8, b: u8, a: u8) -> (c: Color)
        ensures
            c == (Color { r, g, b, a }),
    {
        Color { r, g, b, a }
    }

    /// The sum of two colours: channel by channel, each sum held at 255.
    pub open spec fn plus(self, rhs: Color) -> Color {
        Color {
            r: saturating_sum(self.r, rhs.r),
            g: saturating_sum(self.g, rhs.g),
            b: saturating_sum(self.b, rhs.b),
            a: saturating_sum(self.a, rhs.a),
        }
    }

    /// The channels in the order a pixel stores them.
    pub open spec fn bytes(self) -> Seq<u8> {
        seq![self.r, self.g, self.b, self.a]
    }

    pub fn as_u8_slice(self) -> (bytes: [u8; 4])
        ensures
            bytes@ == self.bytes(),
    {
        [self.r, self.g, self.b, self.a]
    }

    /// The colour that a scalar multiplication gives, from the four products
    /// of its channels and the factor: of each product the whole part, held
    /// to `0..=255`. The host multiplies; this is the rest.
    pub fn from_products(r: Double, g: Double, b: Double, a: Double) -> (c: Color)
        ensures
            c == (Color { r: r@.to_byte(), g: g@.to_byte(), b: b@.to_byte(), a: a@.to_byte() }),
    {
        Color { r: r.to_u8(), g: g.to_u8(), b: b.to_u8(), a: a.to_u8() }
    }
}

/// The order of two colours does not change their sum.
pub proof fn lemma_plus_commutes(a: Color, b: Color)
    ensures
        a.plus(b) == b.plus(a),
{
}

/// A colour with every channel zero changes no sum.
pub proof fn lemma_plus_black(a: Color)
    ensures
        a.plus(Color { r: 0, g: 0, b: 0, a: 0 }) == a,
{
}

impl std::ops::Add for Color {
    type Output = Color;

    /// `self.plus(rhs)`.
    fn add(self, rhs: Color) -> (sum: Color) {
        Color {
            r: clamped_add(self.r, rhs.r),
            g: clamped_add(self.g, rhs.g),
            b: clamped_add(self.b, rhs.b),
            a: clamped_add(self.a, rhs.a),
        }
    }
}

impl vstd::std_specs::ops::AddSpecImpl for Color {
    open spec fn obeys_add_spec() -> bool {
        true
    }

    open spec fn add_req(self, rhs: Color) -> bool {
        true
    }

    open spec fn add_spec(self, rhs: Color) -> Color {
        self.plus(rhs)
    }
}

} // verus!
