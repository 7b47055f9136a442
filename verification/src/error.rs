//! The error type of the library and its messages.

use vstd::prelude::*;
use vstd::string::StringExecFns;

verus! {

/// What went wrong, with the detail as text.
#[derive(Clone, Debug, PartialEq, Eq)]
pub enum AppError {
    FileError(String),
    Custom(String),
    BinaryNotFound(String),
    DownloadError(String),
    MetadataError(String),
    DatabaseError(String),
    NetworkError(String),
    InvalidUrl(String),
}

impl AppError {
    /// The words that precede the detail in the message of each kind of error.
    pub open spec fn prefix(self) -> Seq<char> {
        match self {
            AppError::FileError(_) => "File error: "@,
            AppError::Custom(_) => ""@,
            AppError::BinaryNotFound(_) => "Binary not found: "@,
            AppError::DownloadError(_) => "Download error: "@,
            AppError::MetadataError(_) => "Metadata error: "@,
            AppError::DatabaseError(_) => "Database error: "@,
            AppError::NetworkError(_) => "Network error: "@,
            AppError::InvalidUrl(_) => "Invalid URL: "@,
        }
    }

    /// The detail carried by the error.
    pub open spec fn detail(self) -> Seq<char> {
        match self {
            AppError::FileError(s) => s@,
            AppError::Custom(s) => s@,
            AppError::BinaryNotFound(s) => s@,
            AppError::DownloadError(s) => s@,
            AppError::MetadataError(s) => s@,
            AppError::DatabaseError(s) => s@,
            AppError::NetworkError(s) => s@,
            AppError::InvalidUrl(s) => s@,
        }
    }

    /// The message shown for this error: the kind's words, then the detail.
    pub fn message(&self) -> (m: String)
        ensures
            m@ == self.prefix() + self.detail(),
    {
        let (head, detail): (&str, &String) = match self {
            AppError::FileError(s) => ("File error: ", s),
            AppError::Custom(s) => ("", s),
            AppError::BinaryNotFound(s) => ("Binary not found: ", s),
            AppError::DownloadError(s) => ("Download error: ", s),
            AppError::MetadataError(s) => ("Metadata error: ", s),
            AppError::DatabaseError(s) => ("Database error: ", s),
            AppError::NetworkError(s) => ("Network error: ", s),
            AppError::InvalidUrl(s) => ("Invalid URL: ", s),
        };
        let mut m = String::from_str(head);
        m.append(detail.as_str());
        m
    }
}

} // verus!
