//! The fixed set of game areas and their immutable metadata.
//!
//! Each concrete area has a display name, a numeric ID used by the save
//! format, a flag saying whether it offers unlockable rewards, and a maximum
//! red-berry count. `SumOfBests` is the synthetic pseudo-area that the
//! aggregator appends; it never appears in a well-formed save document, but
//! the ID table still maps its reserved number.

use vstd::prelude::*;

verus! {

/// One area of the game, or the synthetic aggregate pseudo-area.
#[derive(Clone, Copy, Debug, PartialEq, Eq, Structural)]
pub enum World {
    Prologue,
    ForsakenCity,
    OldSite,
    CelestialResort,
    GoldenRidge,
    MirrorTemple,
    Reflection,
    TheSummit,
    Epilogue,
    Core,
    Farewell,
    SumOfBests,
}

impl World {
    /// The numeric ID of this area in the save format.
    pub open spec fn spec_id(self) -> u32 {
        match self {
            World::Prologue => 0,
            World::ForsakenCity => 1,
            World::OldSite => 2,
            World::CelestialResort => 3,
            World::GoldenRidge => 4,
            World::MirrorTemple => 5,
            World::Reflection => 6,
            World::TheSummit => 7,
            World::Epilogue => 8,
            World::Core => 9,
            World::Farewell => 10,
            World::SumOfBests => 100,
        }
    }

    /// The area that a numeric save-format ID denotes, if any.
    pub open spec fn spec_from_id(id: u32) -> Option<World> {
        if id == 0 {
            Some(World::Prologue)
        } else if id == 1 {
            Some(World::ForsakenCity)
        } else if id == 2 {
            Some(World::OldSite)
        } else if id == 3 {
            Some(World::CelestialResort)
        } else if id == 4 {
            Some(World::GoldenRidge)
        } else if id == 5 {
            Some(World::MirrorTemple)
        } else if id == 6 {
            Some(World::Reflection)
        } else if id == 7 {
            Some(World::TheSummit)
        } else if id == 8 {
            Some(World::Epilogue)
        } else if id == 9 {
            Some(World::Core)
        } else if id == 10 {
            Some(World::Farewell)
        } else if id == 100 {
            Some(World::SumOfBests)
        } else {
            None
        }
    }

    /// Whether this area offers unlockable rewards; only the prologue and the
    /// epilogue do not.
    pub open spec fn spec_has_unlockables(self) -> bool {
        !(self is Prologue || self is Epilogue)
    }

    /// The fixed maximum number of red berries collectable in this area.
    pub open spec fn spec_red_berries(self) -> u32 {
        match self {
            World::Prologue => 0,
            World::ForsakenCity => 20,
            World::OldSite => 18,
            World::CelestialResort => 25,
            World::GoldenRidge => 29,
            World::MirrorTemple => 31,
            World::Reflection => 0,
            World::TheSummit => 47,
            World::Epilogue => 0,
            World::Core => 5,
            World::Farewell => 0,
            World::SumOfBests => 175,
        }
    }

    /// The display name of this area.
    pub open spec fn spec_name(self) -> Seq<char> {
        match self {
            World::Prologue => "    Prologue"@,
            World::ForsakenCity => "1.  Forsaken City"@,
            World::OldSite => "2.  Old Site"@,
            World::CelestialResort => "3.  Celestial Resort"@,
            World::GoldenRidge => "4.  Golden Ridge"@,
            World::MirrorTemple => "5.  Mirror Temple"@,
            World::Reflection => "6.  Reflection"@,
            World::TheSummit => "7.  The Summit"@,
            World::Epilogue => "    Epilogue"@,
            World::Core => "8.  Core"@,
            World::Farewell => "9.  Farewell"@,
            World::SumOfBests => "    Sum of Bests"@,
        }
    }

    pub fn id(self) -> (r: u32)
        ensures
            r == self.spec_id(),
    {
        match self {
            World::Prologue => 0,
            World::ForsakenCity => 1,
            World::OldSite => 2,
            World::CelestialResort => 3,
            World::GoldenRidge => 4,
            World::MirrorTemple => 5,
            World::Reflection => 6,
            World::TheSummit => 7,
            World::Epilogue => 8,
            World::Core => 9,
            World::Farewell => 10,
            World::SumOfBests => 100,
        }
    }

    pub fn from_id(id: u32) -> (r: Option<World>)
        ensures
            r == World::spec_from_id(id),
    {
        if id == 0 {
            Some(World::Prologue)
        } else if id == 1 {
            Some(World::ForsakenCity)
        } else if id == 2 {
            Some(World::OldSite)
        } else if id == 3 {
            Some(World::CelestialResort)
        } else if id == 4 {
            Some(World::GoldenRidge)
        } else if id == 5 {
            Some(World::MirrorTemple)
        } else if id == 6 {
            Some(World::Reflection)
        } else if id == 7 {
            Some(World::TheSummit)
        } else if id == 8 {
            Some(World::Epilogue)
        } else if id == 9 {
            Some(World::Core)
        } else if id == 10 {
            Some(World::Farewell)
        } else if id == 100 {
            Some(World::SumOfBests)
        } else {
            None
        }
    }

    pub fn has_unlockables(self) -> (r: bool)
        ensures
            r == self.spec_has_unlockables(),
    {
        match self {
            World::Prologue | World::Epilogue => false,
            _ => true,
        }
    }

    pub fn red_berries(self) -> (r: u32)
        ensures
            r == self.spec_red_berries(),
    {
        match self {
            World::Prologue | World::Reflection | World::Epilogue | World::Farewell => 0,
            World::ForsakenCity => 20,
            World::OldSite => 18,
            World::CelestialResort => 25,
            World::GoldenRidge => 29,
            World::MirrorTemple => 31,
            World::TheSummit => 47,
            World::Core => 5,
            World::SumOfBests => 175,
        }
    }

    pub fn name(self) -> (r: &'static str)
        ensures
            r@ == self.spec_name(),
    {
        match self {
            World::Prologue => "    Prologue",
            World::ForsakenCity => "1.  Forsaken City",
            World::OldSite => "2.  Old Site",
            World::CelestialResort => "3.  Celestial Resort",
            World::GoldenRidge => "4.  Golden Ridge",
            World::MirrorTemple => "5.  Mirror Temple",
            World::Reflection => "6.  Reflection",
            World::TheSummit => "7.  The Summit",
            World::Epilogue => "    Epilogue",
            World::Core => "8.  Core",
            World::Farewell => "9.  Farewell",
            World::SumOfBests => "    Sum of Bests",
        }
    }
}

} // verus!
