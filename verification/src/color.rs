use vstd::prelude::*;

verus! {

/// A pixel as it is stored: three channels of eight bits.
#[derive(Clone, Copy, Debug, PartialEq, Eq, Structural)]
pub struct Rgb {
    pub r: u8,
    pub g: u8,
    pub b: u8,
}

impl Rgb {
    /// The pixel that an image holds where nothing was drawn.
    pub open spec fn black() -> Rgb {
        Rgb { r: 0, g: 0, b: 0 }
    }
}

} // verus!
