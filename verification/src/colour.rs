//! Display colours carried by objects and tiles.

use vstd::prelude::*;

verus! {

/// A colour as three channels of eight bits.
#[derive(Clone, Copy, Debug, PartialEq, Eq, Structural)]
pub struct Colour {
    pub r: u8,
    pub g: u8,
    pub b: u8,
}

impl Colour {
    /// The colour of corpses.
    pub open spec fn spec_dark_red() -> Colour {
        Colour { r: 191, g: 0, b: 0 }
    }

    /// The colour of orcs.
    pub open spec fn spec_desaturated_green() -> Colour {
        Colour { r: 63, g: 127, b: 63 }
    }

    /// The colour of trolls.
    pub open spec fn spec_darker_green() -> Colour {
        Colour { r: 0, g: 127, b: 0 }
    }

    /// The colour of a wall out of sight.
    pub open spec fn spec_dark_wall() -> Colour {
        Colour { r: 0, g: 0, b: 100 }
    }

    /// The colour of a wall in sight.
    pub open spec fn spec_light_wall() -> Colour {
        Colour { r: 130, g: 110, b: 50 }
    }

    /// The colour of the ground out of sight.
    pub open spec fn spec_dark_ground() -> Colour {
        Colour { r: 50, g: 50, b: 150 }
    }

    /// The colour of the ground in sight.
    pub open spec fn spec_light_ground() -> Colour {
        Colour { r: 200, g: 180, b: 50 }
    }

    /// The colour of corpses.
    #[verifier::when_used_as_spec(spec_dark_red)]
    pub fn dark_red() -> (c: Colour)
        ensures
            c == Colour::spec_dark_red(),
    {
        Colour { r: 191, g: 0, b: 0 }
    }

    /// The colour of orcs.
    #[verifier::when_used_as_spec(spec_desaturated_green)]
    pub fn desaturated_green() -> (c: Colour)
        ensures
            c == Colour::spec_desaturated_green(),
    {
        Colour { r: 63, g: 127, b: 63 }
    }

    /// The colour of trolls.
    #[verifier::when_used_as_spec(spec_darker_green)]
    pub fn darker_green() -> (c: Colour)
        ensures
            c == Colour::spec_darker_green(),
    {
        Colour { r: 0, g: 127, b: 0 }
    }
}

} // verus!
