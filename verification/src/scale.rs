//! The scale factor of a rendering.
//!
//! A factor travels through this library as the bit pattern of an IEEE 754
//! single-precision number. For such numbers of positive sign the order of the
//! bit patterns, read as integers, is the order of the numbers, and every
//! pattern of negative sign, of an infinity or of a NaN lies above the pattern
//! of ten. So the accepted interval is an interval of bit patterns.

use vstd::prelude::*;

use crate::error::{AppError, Failure};

verus! {

/// The bit pattern of one tenth, the least factor accepted.
pub const SCALE_MIN_BITS: u32 = 0x3DCC_CCCD;

/// The bit pattern of ten, the greatest factor accepted.
pub const SCALE_MAX_BITS: u32 = 0x4120_0000;

/// Whether the factor with the bit pattern `bits` lies between one tenth and
/// ten, both included.
pub open spec fn scale_accepted(bits: u32) -> bool {
    SCALE_MIN_BITS <= bits <= SCALE_MAX_BITS
}

/// The reason given where a factor is refused.
pub open spec fn scale_refused_text() -> Seq<char> {
    "scale must be between 0.1 and 10.0"@
}

/// A scale factor between one tenth and ten.
#[derive(Clone, Copy, Debug, PartialEq, Eq, Structural)]
pub struct Scale {
    bits: u32,
}

impl Scale {
    #[verifier::type_invariant]
    spec fn well_formed(self) -> bool {
        scale_accepted(self.bits)
    }

    /// The bit pattern of the factor.
    pub closed spec fn pattern(self) -> u32 {
        self.bits
    }

    /// Takes the factor with the bit pattern `bits`, where it is accepted.
    pub fn from_bits(bits: u32) -> (r: Result<Scale, AppError>)
        ensures
            r is Ok <==> scale_accepted(bits),
            r matches Ok(scale) ==> scale.pattern() == bits,
            r matches Err(e) ==> e@ == Failure::InvalidScale(scale_refused_text()),
    {
        if SCALE_MIN_BITS <= bits && bits <= SCALE_MAX_BITS {
            Ok(Scale { bits })
        } else {
            Err(AppError::InvalidScale(String::from_str("scale must be between 0.1 and 10.0")))
        }
    }

    /// The bit pattern of the factor.
    pub fn bits(&self) -> (bits: u32)
        ensures
            bits == self.pattern(),
            scale_accepted(bits),
    {
        proof {
            use_type_invariant(self);
        }
        self.bits
    }
}

} // verus!
