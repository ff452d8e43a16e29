//! The kinds of failure that a synchronisation run can meet.
use vstd::prelude::*;
use vstd::string::StringExecFns;

verus! {

/// A failure of a run, or of one destination within a run.
#[derive(Debug, Clone, PartialEq, Eq)]
pub enum Error {
    /// A file that a run needs, such as the configuration, cannot be read.
    IoError(String),
    /// The directory that holds the version directories cannot be listed,
    /// or (when entries must all be readable) one of its entries cannot be read.
    DirectoryUnreadable(String),
    /// Only the newest version was asked for and there is no version directory.
    NoVersionDirectory,
    /// Overlaying the content into one destination stopped partway.
    CopyFailed(String),
    /// The configuration text is not well-formed.
    ConfigUnparsable(String),
    /// A required configuration field is absent or is not a string.
    ConfigFieldMissing(String),
}

/// The text that opens the message of each kind of error.
pub open spec fn error_prefix(e: Error) -> Seq<char> {
    match e {
        Error::IoError(_) => "IO Error: "@,
        Error::DirectoryUnreadable(_) => "IO Error: "@,
        Error::NoVersionDirectory => "No version directory was found"@,
        Error::CopyFailed(_) => "Copy Error: "@,
        Error::ConfigUnparsable(_) => "Json Error: "@,
        Error::ConfigFieldMissing(_) => "Key missing in pref.json: \""@,
    }
}

/// The full message of an error: its prefix, then the detail it carries.
pub open spec fn error_message(e: Error) -> Seq<char> {
    match e {
        Error::IoError(c) => error_prefix(e) + c@,
        Error::DirectoryUnreadable(c) => error_prefix(e) + c@,
        Error::NoVersionDirectory => error_prefix(e),
        Error::CopyFailed(c) => error_prefix(e) + c@,
        Error::ConfigUnparsable(c) => error_prefix(e) + c@,
        Error::ConfigFieldMissing(f) => error_prefix(e) + f@ + "\""@,
    }
}

impl Error {
    /// A one-line, human-readable description of the error.
    pub fn describe(&self) -> (r: String)
        ensures
            r@ == error_message(*self),
    {
        match self {
            Error::IoError(c) => {
                let mut s = String::from_str("IO Error: ");
                s.append(c.as_str());
                s
            },
            Error::DirectoryUnreadable(c) => {
                let mut s = String::from_str("IO Error: ");
                s.append(c.as_str());
                s
            },
            Error::NoVersionDirectory => String::from_str("No version directory was found"),
            Error::CopyFailed(c) => {
                let mut s = String::from_str("Copy Error: ");
                s.append(c.as_str());
                s
            },
            Error::ConfigUnparsable(c) => {
                let mut s = String::from_str("Json Error: ");
                s.append(c.as_str());
                s
            },
            Error::ConfigFieldMissing(f) => {
                let mut s = String::from_str("Key missing in pref.json: \"");
                s.append(f.as_str());
                s.append("\"");
                s
            },
        }
    }
}

} // verus!
