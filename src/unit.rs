use vstd::prelude::*;

verus! {

/// One of the four units a duration expression may use.
#[derive(Debug, Clone, Copy, PartialEq, Eq, Structural)]
pub enum Unit {
    Second,
    Minute,
    Hour,
    Day,
}

impl Unit {
    /// Position in the order `Second < Minute < Hour < Day`.
    pub open spec fn rank(self) -> nat {
        match self {
            Unit::Second => 0,
            Unit::Minute => 1,
            Unit::Hour => 2,
            Unit::Day => 3,
        }
    }

    /// Number of seconds in one of this unit.
    pub open spec fn scale(self) -> nat {
        match self {
            Unit::Second => 1,
            Unit::Minute => 60,
            Unit::Hour => 3600,
            Unit::Day => 86400,
        }
    }

    /// The character that names this unit.
    pub open spec fn suffix(self) -> char {
        match self {
            Unit::Second => 's',
            Unit::Minute => 'm',
            Unit::Hour => 'h',
            Unit::Day => 'd',
        }
    }

    /// The unit that a suffix character names, if any.
    pub open spec fn from_suffix_spec(c: char) -> Option<Unit> {
        if c == 's' {
            Some(Unit::Second)
        } else if c == 'm' {
            Some(Unit::Minute)
        } else if c == 'h' {
            Some(Unit::Hour)
        } else if c == 'd' {
            Some(Unit::Day)
        } else {
            None
        }
    }

    pub fn from_suffix(c: char) -> (r: Option<Unit>)
        ensures
            r == Unit::from_suffix_spec(c),
    {
        match c {
            's' => Some(Unit::Second),
            'm' => Some(Unit::Minute),
            'h' => Some(Unit::Hour),
            'd' => Some(Unit::Day),
            _ => None,
        }
    }

    pub fn rank_of(self) -> (r: u8)
        ensures
            r as nat == self.rank(),
    {
        match self {
            Unit::Second => 0,
            Unit::Minute => 1,
            Unit::Hour => 2,
            Unit::Day => 3,
        }
    }

    pub fn to_secs(self) -> (r: u64)
        ensures
            r as nat == self.scale(),
    {
        match self {
            Unit::Second => 1,
            Unit::Minute => 60,
            Unit::Hour => 60 * 60,
            Unit::Day => 60 * 60 * 24,
        }
    }
}

} // verus!
