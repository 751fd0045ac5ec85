use vstd::prelude::*;

verus! {

/// Why a duration expression was rejected.
#[derive(Debug, Clone, Copy, PartialEq, Eq, Structural)]
pub enum Error {
    /// A unit is coarser than the unit resolved before it.
    OutOfOrder,
    /// A unit equals the unit resolved just before it.
    AlreadySeen,
    /// A unit without digits, a number with a leading zero, or digits that end the input.
    InvalidData,
}

impl Error {
    /// The fixed text shown to a user for this error.
    pub open spec fn message_spec(self) -> Seq<char> {
        match self {
            Error::OutOfOrder => "Out of order"@,
            Error::AlreadySeen => "Already seen"@,
            Error::InvalidData => "Invalid data"@,
        }
    }

    /// The fixed text shown to a user for this error.
    pub fn message(&self) -> (r: &'static str)
        ensures
            r@ == self.message_spec(),
    {
        match self {
            Error::OutOfOrder => "Out of order",
            Error::AlreadySeen => "Already seen",
            Error::InvalidData => "Invalid data",
        }
    }
}

} // verus!
