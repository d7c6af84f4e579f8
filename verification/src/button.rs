//! Logical buttons and the electrical level of a pin.

use vstd::prelude::*;

verus! {

/// Stable identity of one physical switch, bound to exactly one pin.
#[derive(Clone, Copy, Debug, PartialEq, Eq, Hash, Structural)]
pub enum ButtonNumber {
    Button1,
    Button2,
    Button3,
    Button4,
}

impl ButtonNumber {
    /// Position of the button in the enumeration, starting at 0.
    pub open spec fn spec_index(self) -> u8 {
        match self {
            ButtonNumber::Button1 => 0,
            ButtonNumber::Button2 => 1,
            ButtonNumber::Button3 => 2,
            ButtonNumber::Button4 => 3,
        }
    }

    /// The button at position `index`, if there is one.
    pub open spec fn spec_from_index(index: int) -> Option<ButtonNumber> {
        if index == 0 {
            Some(ButtonNumber::Button1)
        } else if index == 1 {
            Some(ButtonNumber::Button2)
        } else if index == 2 {
            Some(ButtonNumber::Button3)
        } else if index == 3 {
            Some(ButtonNumber::Button4)
        } else {
            None
        }
    }

    #[verifier::when_used_as_spec(spec_index)]
    pub fn index(self) -> (i: u8)
        ensures
            i == self.spec_index(),
            i < 4,
    {
        match self {
            ButtonNumber::Button1 => 0,
            ButtonNumber::Button2 => 1,
            ButtonNumber::Button3 => 2,
            ButtonNumber::Button4 => 3,
        }
    }

    pub fn from_index(index: u8) -> (b: Option<ButtonNumber>)
        ensures
            b == Self::spec_from_index(index as int),
            b is Some <==> index < 4,
    {
        if index == 0 {
            Some(ButtonNumber::Button1)
        } else if index == 1 {
            Some(ButtonNumber::Button2)
        } else if index == 2 {
            Some(ButtonNumber::Button3)
        } else if index == 3 {
            Some(ButtonNumber::Button4)
        } else {
            None
        }
    }
}

/// Electrical level read from an input pin. Switches pull their pin low when
/// pressed, so `Low` is the active level.
#[derive(Clone, Copy, Debug, PartialEq, Eq, Hash, Structural)]
pub enum Level {
    Low,
    High,
}

impl Level {
    /// Whether this is the level of a pressed switch.
    pub open spec fn spec_is_active(self) -> bool {
        self == Level::Low
    }

    #[verifier::when_used_as_spec(spec_is_active)]
    pub fn is_active(self) -> (a: bool)
        ensures
            a == self.spec_is_active(),
    {
        match self {
            Level::Low => true,
            Level::High => false,
        }
    }
}

} // verus!
