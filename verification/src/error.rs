//! The ways in which the library declines an input.

use vstd::prelude::*;

verus! {

/// Why an operation of the library failed.
#[derive(Debug, Clone, Copy, PartialEq, Eq, Structural)]
pub enum ErrorKind {
    /// A recording date does not read as a calendar date `year-month-day`.
    UnparsableDate,
    /// Colours were asked of an image without pixels.
    EmptyImage,
    /// An image file name pattern is no regular expression.
    BadPattern,
    /// The name given for an image file does not end like one.
    InvalidFileName,
    /// A collage was asked for and no cover goes into it.
    NoCovers,
    /// An image has a side too long to be resized, or is too large for memory.
    OversizedCanvas,
    /// An image has fewer pixels than its size asks for.
    BrokenCover,
}

impl ErrorKind {
    /// A sentence for the operator.
    pub fn message(&self) -> (out: String)
        ensures
            out@ == match *self {
                ErrorKind::UnparsableDate => "the recording date is not a calendar date"@,
                ErrorKind::EmptyImage => "the image has no pixels"@,
                ErrorKind::BadPattern => "the file name pattern is not a regular expression"@,
                ErrorKind::InvalidFileName => "Invalid filename"@,
                ErrorKind::NoCovers => "no cover matches the filter"@,
                ErrorKind::OversizedCanvas => "the image is too large to be resized"@,
                ErrorKind::BrokenCover => "the image has too few pixels for its size"@,
            },
    {
        match self {
            ErrorKind::UnparsableDate => "the recording date is not a calendar date".to_string(),
            ErrorKind::EmptyImage => "the image has no pixels".to_string(),
            ErrorKind::BadPattern => "the file name pattern is not a regular expression".to_string(),
            ErrorKind::InvalidFileName => "Invalid filename".to_string(),
            ErrorKind::NoCovers => "no cover matches the filter".to_string(),
            ErrorKind::OversizedCanvas => "the image is too large to be resized".to_string(),
            ErrorKind::BrokenCover => "the image has too few pixels for its size".to_string(),
        }
    }
}

} // verus!
