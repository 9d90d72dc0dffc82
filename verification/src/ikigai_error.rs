use vstd::prelude::*;
use vstd::string::StringExecFns;

verus! {

/// Why a calendar query could not be answered.
#[derive(Debug, Clone, Copy, PartialEq, Eq, Structural)]
pub enum IkigaiError {
    /// The date asked for lies outside what the calendar tables cover, or
    /// names a day or a leap month that the year does not have.
    InvalidDate,
}

pub type IkigaiResult<T> = Result<T, IkigaiError>;

impl IkigaiError {
    /// The text that describes the error to a reader.
    pub open spec fn message_spec(self) -> Seq<char> {
        match self {
            IkigaiError::InvalidDate => "Invalid date"@,
        }
    }

    /// Renders the error as text.
    pub fn message(&self) -> (r: String)
        ensures
            r@ == self.message_spec(),
    {
        match self {
            IkigaiError::InvalidDate => String::from_str("Invalid date"),
        }
    }
}

} // verus!
