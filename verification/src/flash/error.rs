use vstd::prelude::*;

verus! {

/// An error that can occur when writing to flash memory.
#[derive(Clone, Copy, Debug, PartialEq, Eq, Structural)]
pub enum Error {
    /// The write operation did not complete successfully within the device's timeout window.
    OperationTimedOut,
    /// Data written was unable to be verified.
    WriteFailure,
    /// The writer has exhausted all of its space.
    ///
    /// This indicates that the range provided when creating the writer has been completely
    /// exhausted.
    EndOfWriter,
}

impl Error {
    /// The sentence that describes this error.
    pub open spec fn message(self) -> Seq<char> {
        match self {
            Error::OperationTimedOut => "the operation on the flash device timed out"@,
            Error::WriteFailure => "unable to verify that data was written correctly"@,
            Error::EndOfWriter => "the writer has reached the end of its range"@,
        }
    }

    /// Returns the sentence that describes this error.
    pub fn to_string(&self) -> (text: String)
        ensures
            text@ == self.message(),
    {
        match self {
            Error::OperationTimedOut => String::from_str(
                "the operation on the flash device timed out",
            ),
            Error::WriteFailure => String::from_str(
                "unable to verify that data was written correctly",
            ),
            Error::EndOfWriter => String::from_str("the writer has reached the end of its range"),
        }
    }
}

} // verus!
