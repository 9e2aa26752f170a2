//! What can go wrong in the editor core.

use vstd::prelude::*;

verus! {

/// The failures the editor distinguishes.
///
/// None of them ends the editor: an `OutOfBounds` is a refused edit, a
/// `LoadError` or `SaveError` is reported in the status area, and the two
/// parse failures are dropped silently together with the pending keys.
#[derive(Clone, Copy, Debug, PartialEq, Eq, Structural)]
pub enum EditorError {
    /// A position or span lies outside the buffer.
    OutOfBounds,
    /// The contents of a file could not be read.
    LoadError,
    /// The contents of a buffer could not be written.
    SaveError,
    /// The pending keys were cancelled while they could still have become
    /// one of several commands.
    ParseAmbiguous,
    /// The pending keys are not the start of any command.
    ParseUnrecognized,
}

impl EditorError {
    /// Whether the user is told about this failure. Parse failures are
    /// dropped silently.
    pub open spec fn is_reported(self) -> bool {
        self == EditorError::OutOfBounds || self == EditorError::LoadError || self
            == EditorError::SaveError
    }

    /// What the status area says about this failure. It says nothing about
    /// a parse failure.
    pub open spec fn text(self) -> Seq<char> {
        match self {
            EditorError::OutOfBounds => "Position out of bounds"@,
            EditorError::LoadError => "Could not read the file"@,
            EditorError::SaveError => "Could not write the file"@,
            EditorError::ParseAmbiguous => ""@,
            EditorError::ParseUnrecognized => ""@,
        }
    }

    /// What the status area says about this failure.
    pub fn message(self) -> (s: &'static str)
        ensures
            s@ == self.text(),
    {
        match self {
            EditorError::OutOfBounds => "Position out of bounds",
            EditorError::LoadError => "Could not read the file",
            EditorError::SaveError => "Could not write the file",
            EditorError::ParseAmbiguous => "",
            EditorError::ParseUnrecognized => "",
        }
    }

    /// Whether the user is told about this failure.
    pub fn reported(self) -> (r: bool)
        ensures
            r == self.is_reported(),
    {
        match self {
            EditorError::OutOfBounds => true,
            EditorError::LoadError => true,
            EditorError::SaveError => true,
            EditorError::ParseAmbiguous => false,
            EditorError::ParseUnrecognized => false,
        }
    }
}

} // verus!
