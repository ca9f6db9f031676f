//! Colours as the library handles them: four 8-bit channels, red, green,
//! blue and alpha.

use vstd::prelude::*;

verus! {

/// An RGBA colour with 8-bit channels, in the order red, green, blue, alpha.
#[derive(Clone, Copy, Debug, PartialEq, Eq)]
pub struct Rgba(pub [u8; 4]);

impl Rgba {
    /// The alpha channel.
    pub open spec fn alpha(self) -> u8 {
        self.0[3]
    }
}

} // verus!
