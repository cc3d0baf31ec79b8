//! Colours as exact ratios.

use vstd::prelude::*;

verus! {

/// The intensity `num / den` of one colour channel. A ratio with a zero
/// denominator stands for no number.
#[derive(Copy, Clone, Debug, PartialEq, Eq, Structural)]
pub struct Ratio {
    pub num: usize,
    pub den: usize,
}

/// The colour of a vertex.
#[derive(Copy, Clone, Debug, PartialEq, Eq, Structural)]
pub struct Color {
    pub red: Ratio,
    pub green: Ratio,
    pub blue: Ratio,
}

impl Ratio {
    pub fn new(num: usize, den: usize) -> (r: Self)
        ensures
            r == (Ratio { num, den }),
    {
        Self { num, den }
    }

    /// The ratio `0 / 1`.
    pub open spec fn none() -> Ratio {
        Ratio { num: 0, den: 1 }
    }
}

impl Color {
    pub fn new(red: Ratio, green: Ratio, blue: Ratio) -> (r: Self)
        ensures
            r == (Color { red, green, blue }),
    {
        Self { red, green, blue }
    }

    /// The gray of intensity `level`.
    pub open spec fn gray(level: Ratio) -> Color {
        Color { red: level, green: level, blue: level }
    }
}

} // verus!
