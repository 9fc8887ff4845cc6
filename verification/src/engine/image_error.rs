use vstd::prelude::*;

verus! {

/// The closed set of failures an operation can surface to the caller.
#[derive(Debug, Clone, Copy, PartialEq, Eq, Structural)]
pub enum ErrorCode {
    UnableToDecode,
    InvalidParsing,
    UnableToSave,
    NoColorInput,
    NotImplemented,
    ImageEmpty,
    BudgetUnreachable,
}

impl ErrorCode {
    /// Message to be displayed in a front end.
    pub fn message(&self) -> (r: &str)
        ensures
            r@ == match self {
                ErrorCode::InvalidParsing => "Invalid parsing"@,
                ErrorCode::UnableToDecode => "Unable to decode"@,
                ErrorCode::UnableToSave => "Unable to save"@,
                ErrorCode::NoColorInput => "No color to apply for filter"@,
                ErrorCode::NotImplemented => "Not implemented yet"@,
                ErrorCode::ImageEmpty => "The image is empty"@,
                ErrorCode::BudgetUnreachable => "The size budget cannot be reached"@,
            },
    {
        match self {
            Self::InvalidParsing => "Invalid parsing",
            Self::UnableToDecode => "Unable to decode",
            Self::UnableToSave => "Unable to save",
            Self::NoColorInput => "No color to apply for filter",
            Self::NotImplemented => "Not implemented yet",
            Self::ImageEmpty => "The image is empty",
            Self::BudgetUnreachable => "The size budget cannot be reached",
        }
    }
}

} // verus!
