use vstd::prelude::*;

verus! {

/// Errors shared by this core and the directory/path layers built on it.
#[derive(Debug, Clone, Copy, PartialEq, Eq, Structural)]
pub enum Error {
    /// The block device failed to read or write a sector.
    IoError,
    /// A structural invariant of the volume does not hold.
    InvalidFat32Structure,
    /// Reserved for the directory layer.
    FileNotFound,
    /// Reserved for the path layer.
    InvalidPath,
}

impl Error {
    /// The variant's name, as text.
    pub fn as_str(&self) -> (r: &'static str)
        ensures
            *self == Error::IoError ==> r@ == "IoError"@,
            *self == Error::InvalidFat32Structure ==> r@ == "InvalidFat32Structure"@,
            *self == Error::FileNotFound ==> r@ == "FileNotFound"@,
            *self == Error::InvalidPath ==> r@ == "InvalidPath"@,
    {
        match self {
            Error::IoError => "IoError",
            Error::InvalidFat32Structure => "InvalidFat32Structure",
            Error::FileNotFound => "FileNotFound",
            Error::InvalidPath => "InvalidPath",
        }
    }
}

} // verus!
