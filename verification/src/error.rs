//! The ways in which building a frequency model can fail.

use vstd::prelude::*;
use vstd::string::*;

verus! {

/// Why no model was built.
#[derive(Clone, Copy, Debug, PartialEq, Eq, Structural)]
pub enum LoadError {
    /// A chunk of the corpus is not valid UTF-8.
    Encoding,
    /// The corpus has more windows than a count can hold.
    CountOverflow,
    /// The weight of the characters is more than a total can hold.
    WeightOverflow,
}

impl LoadError {
    /// A description of the failure for the one who asked for the model.
    pub fn message(&self) -> (text: String)
        ensures
            text@ == match *self {
                LoadError::Encoding => "one of the files provided is not encoded as utf-8"@,
                LoadError::CountOverflow => "the corpus is too large to be counted"@,
                LoadError::WeightOverflow => "the corpus is too heavy to be weighed"@,
            },
    {
        match self {
            LoadError::Encoding => String::from_str(
                "one of the files provided is not encoded as utf-8",
            ),
            LoadError::CountOverflow => String::from_str("the corpus is too large to be counted"),
            LoadError::WeightOverflow => String::from_str("the corpus is too heavy to be weighed"),
        }
    }
}

} // verus!
