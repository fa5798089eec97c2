use vstd::prelude::*;

verus! {

/// Why a value could not be added to a command under construction.
#[derive(Clone, Copy, Debug, PartialEq, Eq, Structural, Hash, PartialOrd, Ord)]
pub enum Error {
    /// The value does not fit in the space left, either because it is too big or
    /// because the remaining space is used up. It may fit in another, smaller
    /// invocation.
    InsufficientSpace,
    /// There may be space for the value, but the limit on the number of arguments
    /// or environment variables would be exceeded.
    TooMany,
    /// The value exceeds the limit on a single argument or environment entry and
    /// will not fit even in an otherwise empty command.
    TooLarge,
}

impl Error {
    /// A short human-readable description of the error.
    pub fn message(&self) -> (r: &'static str)
        ensures
            *self == Error::TooMany ==> r@ == "too many values"@,
            *self == Error::TooLarge ==> r@ == "value is too large"@,
            *self == Error::InsufficientSpace ==> r@ == "insufficient space for value"@,
    {
        match self {
            Error::TooMany => "too many values",
            Error::TooLarge => "value is too large",
            Error::InsufficientSpace => "insufficient space for value",
        }
    }
}

} // verus!
