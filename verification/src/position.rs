//! Coordinates of a bus or of a stop.

use vstd::prelude::*;

verus! {

/// A latitude and a longitude, each kept as the bit pattern of a
/// single-precision number. The library stores and returns coordinates and
/// never computes with them, so the bits are all it needs: what comes back is
/// bit for bit what was stored.
#[derive(Clone, Copy, Debug, PartialEq, Eq, Structural)]
pub struct Coordinates {
    pub latitude_bits: u32,
    pub longitude_bits: u32,
}

impl View for Coordinates {
    type V = Coordinates;

    open spec fn view(&self) -> Coordinates {
        *self
    }
}

} // verus!
