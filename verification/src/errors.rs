use vstd::prelude::*;

verus! {

/// Information about an available update: the version the caller runs now and
/// the newest version the registry offers.
#[derive(Debug, Clone, PartialEq, Eq)]
pub struct UpdateInfo {
    /// The currently running version.
    pub current: String,
    /// The latest available version on the registry.
    pub latest: String,
}

/// Errors that can occur during update checking.
#[derive(Debug)]
pub enum Error {
    /// The HTTP request to the registry failed.
    HttpError(String),
    /// The registry response could not be parsed.
    ParseError(String),
    /// A version string could not be parsed.
    VersionError(String),
    /// A cache read or write failed.
    CacheError(String),
    /// The given crate name is not valid.
    InvalidCrateName(String),
}

/// The one-line rendering of an error: a fixed label for the error's kind,
/// followed by the error's own message.
pub open spec fn error_message(e: &Error) -> Seq<char> {
    match e {
        Error::HttpError(m) => "HTTP error: "@ + m@,
        Error::ParseError(m) => "Parse error: "@ + m@,
        Error::VersionError(m) => "Version error: "@ + m@,
        Error::CacheError(m) => "Cache error: "@ + m@,
        Error::InvalidCrateName(m) => "Invalid crate name: "@ + m@,
    }
}

impl Error {
    /// Render the error as one line of text, kind label first.
    pub fn message(&self) -> (r: String)
        ensures
            r@ == error_message(self),
    {
        match self {
            Error::HttpError(m) => String::from_str("HTTP error: ").concat(m.as_str()),
            Error::ParseError(m) => String::from_str("Parse error: ").concat(m.as_str()),
            Error::VersionError(m) => String::from_str("Version error: ").concat(m.as_str()),
            Error::CacheError(m) => String::from_str("Cache error: ").concat(m.as_str()),
            Error::InvalidCrateName(m) => String::from_str("Invalid crate name: ").concat(
                m.as_str(),
            ),
        }
    }
}

} // verus!
