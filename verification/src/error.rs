//! The failures the store reports.

use vstd::prelude::*;
use vstd::string::*;

verus! {

/// `std::io::Error`, a failure of the underlying system.
#[verifier::external_type_specification]
#[verifier::external_body]
pub struct ExIoError(std::io::Error);

/// A failure of the store, by kind.
#[derive(Debug)]
pub enum GritError {
    /// No enclosing directory holds a control directory.
    GitRepoNotFound,
    /// The control directory is there but cannot be used: its
    /// configuration is missing or unreadable, or declares a format that is
    /// not supported.
    InvalidGitRepo(String),
    /// A key that is not forty lowercase hexadecimal digits.
    InvalidHash(String),
    /// Stored bytes whose header is absent, malformed or wrong about the size.
    InvalidHeader(String),
    /// A kind label outside the four known ones.
    InvalidObjectType(String),
    /// A failure of the underlying system, handed on as it came.
    IOError(std::io::Error),
    /// Something other than a directory stands where one is needed.
    NotADirectory(String),
    /// Something other than a regular file stands where one is needed.
    NotAFile(String),
    /// No object is stored under a well-formed key.
    ObjectNotFound(String),
}

/// Renders a failure of the system as text: `ToString::to_string` of the
/// standard library on a `std::io::Error`. Nothing is claimed of the text.
#[verifier::external_body]
fn io_error_text(err: &std::io::Error) -> (text: String) {
    err.to_string()
}

impl GritError {
    /// The text that tells of the failure, where the library words it
    /// itself: every kind but a failure of the system.
    pub open spec fn message(&self) -> Option<Seq<char>> {
        match self {
            GritError::GitRepoNotFound => Some(
                "not a git repository (or any parent up to mount point /)"@,
            ),
            GritError::InvalidGitRepo(msg) => Some("Invalid git repository: "@ + msg@),
            GritError::InvalidHash(hash) => Some("Invalid object name: "@ + hash@),
            GritError::InvalidHeader(msg) => Some("Invalid object header: "@ + msg@),
            GritError::InvalidObjectType(msg) => Some("Invalid object type: "@ + msg@),
            GritError::IOError(_) => None,
            GritError::NotADirectory(path) => Some(path@ + " is not a directory"@),
            GritError::NotAFile(path) => Some(path@ + " is not a regular file"@),
            GritError::ObjectNotFound(hash) => Some("Object not found: "@ + hash@),
        }
    }

    /// The text that tells of the failure.
    pub fn to_string(&self) -> (text: String)
        ensures
            self.message() matches Some(m) ==> text@ == m,
    {
        match self {
            GritError::GitRepoNotFound => String::from_str(
                "not a git repository (or any parent up to mount point /)",
            ),
            GritError::InvalidGitRepo(msg) => String::from_str("Invalid git repository: ").concat(
                msg.as_str(),
            ),
            GritError::InvalidHash(hash) => String::from_str("Invalid object name: ").concat(
                hash.as_str(),
            ),
            GritError::InvalidHeader(msg) => String::from_str("Invalid object header: ").concat(
                msg.as_str(),
            ),
            GritError::InvalidObjectType(msg) => String::from_str("Invalid object type: ").concat(
                msg.as_str(),
            ),
            GritError::IOError(err) => io_error_text(err),
            GritError::NotADirectory(path) => String::from_str(path.as_str()).concat(
                " is not a directory",
            ),
            GritError::NotAFile(path) => String::from_str(path.as_str()).concat(
                " is not a regular file",
            ),
            GritError::ObjectNotFound(hash) => String::from_str("Object not found: ").concat(
                hash.as_str(),
            ),
        }
    }
}

impl From<std::io::Error> for GritError {
    fn from(err: std::io::Error) -> (e: GritError) {
        GritError::IOError(err)
    }
}

impl vstd::std_specs::convert::FromSpecImpl<std::io::Error> for GritError {
    open spec fn obeys_from_spec() -> bool {
        true
    }

    open spec fn from_spec(err: std::io::Error) -> GritError {
        GritError::IOError(err)
    }
}

} // verus!
