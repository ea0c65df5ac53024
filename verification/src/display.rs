//! Plain data types of the display driver that shares the board: the
//! display logic itself stays outside this library.

use vstd::prelude::*;

verus! {

/// Tearing-effect line modes of the display controller.
#[derive(Copy, Clone, Debug, PartialEq, Eq, Structural)]
pub enum TearingEffect {
    Off,
    Vertical,
    HorizontalAndVertical,
}

impl TearingEffect {
    /// The wire value of this mode.
    pub open spec fn spec_code(self) -> u8 {
        match self {
            TearingEffect::Off => 0,
            TearingEffect::Vertical => 1,
            TearingEffect::HorizontalAndVertical => 2,
        }
    }

    /// Decoding of a wire value; values beyond the modes are rejected.
    pub open spec fn spec_from_code(v: u8) -> Option<TearingEffect> {
        if v == 0 {
            Some(TearingEffect::Off)
        } else if v == 1 {
            Some(TearingEffect::Vertical)
        } else if v == 2 {
            Some(TearingEffect::HorizontalAndVertical)
        } else {
            None
        }
    }

    /// The wire value of this mode.
    pub fn code(self) -> (r: u8)
        ensures
            r == self.spec_code(),
    {
        match self {
            TearingEffect::Off => 0,
            TearingEffect::Vertical => 1,
            TearingEffect::HorizontalAndVertical => 2,
        }
    }

    /// Decode a wire value.
    pub fn from_code(v: u8) -> (r: Option<TearingEffect>)
        ensures
            r == Self::spec_from_code(v),
    {
        if v == 0 {
            Some(TearingEffect::Off)
        } else if v == 1 {
            Some(TearingEffect::Vertical)
        } else if v == 2 {
            Some(TearingEffect::HorizontalAndVertical)
        } else {
            None
        }
    }
}

/// Orientations of the display panel.
#[derive(Copy, Clone, Debug, PartialEq, Eq, Structural)]
pub enum Orientation {
    Portrait,
    Landscape,
    PortraitSwapped,
    LandscapeSwapped,
}

impl Orientation {
    /// The wire value of this orientation.
    pub open spec fn spec_code(self) -> u8 {
        match self {
            Orientation::Portrait => 0,
            Orientation::Landscape => 1,
            Orientation::PortraitSwapped => 2,
            Orientation::LandscapeSwapped => 3,
        }
    }

    /// Decoding of a wire value; values beyond the orientations are
    /// rejected.
    pub open spec fn spec_from_code(v: u8) -> Option<Orientation> {
        if v == 0 {
            Some(Orientation::Portrait)
        } else if v == 1 {
            Some(Orientation::Landscape)
        } else if v == 2 {
            Some(Orientation::PortraitSwapped)
        } else if v == 3 {
            Some(Orientation::LandscapeSwapped)
        } else {
            None
        }
    }

    /// The wire value of this orientation.
    pub fn code(self) -> (r: u8)
        ensures
            r == self.spec_code(),
    {
        match self {
            Orientation::Portrait => 0,
            Orientation::Landscape => 1,
            Orientation::PortraitSwapped => 2,
            Orientation::LandscapeSwapped => 3,
        }
    }

    /// Decode a wire value.
    pub fn from_code(v: u8) -> (r: Option<Orientation>)
        ensures
            r == Self::spec_from_code(v),
    {
        if v == 0 {
            Some(Orientation::Portrait)
        } else if v == 1 {
            Some(Orientation::Landscape)
        } else if v == 2 {
            Some(Orientation::PortraitSwapped)
        } else if v == 3 {
            Some(Orientation::LandscapeSwapped)
        } else {
            None
        }
    }
}

/// Faults of the display driver.
#[derive(Copy, Clone, Debug, PartialEq, Eq, Structural)]
pub enum DisplayError {
    DisplayError,
    PinError,
}

/// Law: display wire values and variants correspond one to one.
pub proof fn lemma_display_codes_round_trip(t: TearingEffect, o: Orientation)
    ensures
        TearingEffect::spec_from_code(t.spec_code()) == Some(t),
        Orientation::spec_from_code(o.spec_code()) == Some(o),
{
}

} // verus!
