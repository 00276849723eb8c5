use vstd::prelude::*;
use vstd::string::StringExecFns;

verus! {

/// The ways a configuration read can fail.
///
/// `InvalidPath` carries the offending path's display text; `IoError` and
/// `Utf8Error` carry a description of the underlying failure.
#[derive(Debug, PartialEq, Eq)]
pub enum Error {
    InvalidPath(String),
    IoError(String),
    Utf8Error(String),
}

impl Error {
    /// A human-readable description of the failure, naming its kind and the
    /// diagnostic context the variant carries.
    pub fn message(&self) -> (r: String)
        ensures
            self matches Error::InvalidPath(p) ==> r@ == "Invalid path: "@ + p@,
            self matches Error::IoError(m) ==> r@ == "IO error: "@ + m@,
            self matches Error::Utf8Error(m) ==> r@ == "UTF8 error: "@ + m@,
    {
        match self {
            Error::InvalidPath(p) => String::from_str("Invalid path: ").concat(p.as_str()),
            Error::IoError(m) => String::from_str("IO error: ").concat(m.as_str()),
            Error::Utf8Error(m) => String::from_str("UTF8 error: ").concat(m.as_str()),
        }
    }
}

} // verus!
