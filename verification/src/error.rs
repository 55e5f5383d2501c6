//! The ways in which a run can fail.

use vstd::prelude::*;

verus! {

/// Why a run was abandoned. Every error is final: nothing is retried and no
/// partial result is reported.
#[derive(Clone, Copy, Debug, PartialEq, Eq, Structural)]
pub enum ScanError {
    /// A file could not be read or written. The library itself does no input
    /// or output; the variant is there for the program around it.
    IoError,
    /// The bytes are not a valid executable image.
    ParseError,
    /// The image is not a 64-bit image.
    UnsupportedArchitecture,
    /// The image has no code section.
    SectionNotFound,
    /// The raw data of the code section does not lie inside the file.
    OutOfBounds,
}

impl ScanError {
    /// The diagnostic text of each error.
    pub open spec fn spec_message(self) -> Seq<char> {
        match self {
            ScanError::IoError => "failed to read or write a file"@,
            ScanError::ParseError => "failed to parse executable"@,
            ScanError::UnsupportedArchitecture => "unsupported architecture"@,
            ScanError::SectionNotFound => "failed to find .text"@,
            ScanError::OutOfBounds => "section range out of bounds"@,
        }
    }

    /// A short text that tells the user what went wrong.
    pub fn message(&self) -> (text: &'static str)
        ensures
            text@ == self.spec_message(),
    {
        match self {
            ScanError::IoError => "failed to read or write a file",
            ScanError::ParseError => "failed to parse executable",
            ScanError::UnsupportedArchitecture => "unsupported architecture",
            ScanError::SectionNotFound => "failed to find .text",
            ScanError::OutOfBounds => "section range out of bounds",
        }
    }
}

} // verus!
