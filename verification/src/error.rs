//! The ways in which a starting shape can be refused.

use vstd::prelude::*;

verus! {

/// Why a universe could not be made from a shape.
#[derive(Clone, Copy, Debug, PartialEq, Eq, Structural)]
pub enum ShapeError {
    /// The index names no shape.
    OutOfRange,
    /// The display area is smaller than the shape.
    TooBig,
}

impl ShapeError {
    /// The words that describe the error.
    pub open spec fn spec_message(self) -> Seq<char> {
        match self {
            ShapeError::OutOfRange => "index out of range"@,
            ShapeError::TooBig => "display area not big enough for this shape"@,
        }
    }

    /// Describes the error in words.
    pub fn message(&self) -> (text: String)
        ensures
            text@ == self.spec_message(),
    {
        match self {
            ShapeError::OutOfRange => "index out of range".to_owned(),
            ShapeError::TooBig => "display area not big enough for this shape".to_owned(),
        }
    }
}

} // verus!
