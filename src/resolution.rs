//! The two sensitivities of the level and their one-byte encoding.
use vstd::prelude::*;

verus! {

/// Milli-g per LED step in coarse mode.
pub const COARSE_DIVS: i64 = 250;

/// Milli-g per LED step in fine mode.
pub const FINE_DIVS: i64 = 25;

/// How many milli-g one LED step stands for.
#[derive(Clone, Copy, Debug, PartialEq, Eq, Structural)]
pub enum BubbleResolution {
    Coarse,
    Fine,
}

/// A byte that encodes neither resolution: the shared cell was corrupted.
#[derive(Clone, Copy, Debug, PartialEq, Eq, Structural)]
pub struct InvalidResolution {
    pub code: u8,
}

impl BubbleResolution {
    /// The byte that stands for this resolution in shared state.
    pub open spec fn spec_code(self) -> u8 {
        match self {
            BubbleResolution::Coarse => 0,
            BubbleResolution::Fine => 1,
        }
    }

    /// The milli-g per LED step of this resolution.
    pub open spec fn spec_divisor(self) -> int {
        match self {
            BubbleResolution::Coarse => COARSE_DIVS as int,
            BubbleResolution::Fine => FINE_DIVS as int,
        }
    }

    /// The resolution a byte decodes to, if any.
    pub open spec fn spec_decode(code: u8) -> Result<BubbleResolution, InvalidResolution> {
        if code == 0 {
            Ok(BubbleResolution::Coarse)
        } else if code == 1 {
            Ok(BubbleResolution::Fine)
        } else {
            Err(InvalidResolution { code })
        }
    }

    /// The byte stored for this resolution in the shared cell.
    pub fn code(self) -> (r: u8)
        ensures
            r == self.spec_code(),
    {
        match self {
            BubbleResolution::Coarse => 0,
            BubbleResolution::Fine => 1,
        }
    }

    /// The milli-g per LED step.
    pub fn divisor(self) -> (r: i64)
        ensures
            r == self.spec_divisor(),
            r > 0,
    {
        match self {
            BubbleResolution::Coarse => COARSE_DIVS,
            BubbleResolution::Fine => FINE_DIVS,
        }
    }
}

impl TryFrom<u8> for BubbleResolution {
    type Error = InvalidResolution;

    /// Decodes the shared-state byte; any byte but the two codes is an error.
    fn try_from(value: u8) -> (r: Result<BubbleResolution, InvalidResolution>) {
        match value {
            0 => Ok(BubbleResolution::Coarse),
            1 => Ok(BubbleResolution::Fine),
            _ => Err(InvalidResolution { code: value }),
        }
    }
}

impl vstd::std_specs::convert::TryFromSpecImpl<u8> for BubbleResolution {
    open spec fn obeys_try_from_spec() -> bool {
        true
    }

    open spec fn try_from_spec(v: u8) -> Result<BubbleResolution, InvalidResolution> {
        BubbleResolution::spec_decode(v)
    }
}

/// Decoding a resolution's byte gives the resolution back.
pub proof fn lemma_code_round_trip(m: BubbleResolution)
    ensures
        BubbleResolution::spec_decode(m.spec_code()) == Ok::<BubbleResolution, InvalidResolution>(m),
{
}

} // verus!
