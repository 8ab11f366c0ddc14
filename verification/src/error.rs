//! The errors of reading, serving and creating an archive.

use vstd::prelude::*;
use vstd::std_specs::convert::FromSpecImpl;

verus! {

/// A path that no entry of the archive has.
#[derive(Debug)]
pub struct PathNotFoud(pub String);

impl PathNotFoud {
    /// The text shown for this error.
    pub open spec fn message_spec(self) -> Seq<char> {
        "Path "@ + self.0@ + " not found in archive"@
    }

    /// Renders the error.
    pub fn message(&self) -> (text: String)
        ensures
            text@ == self.message_spec(),
    {
        String::from_str("Path ").concat(self.0.as_str()).concat(" not found in archive")
    }
}

/// A container that is readable but does not hold a web archive: the reason
/// is its one field.
#[derive(Debug)]
pub struct WajFormatError(pub &'static str);

impl WajFormatError {
    /// The text shown for this error.
    pub open spec fn message_spec(self) -> Seq<char> {
        "Jbk archive is not a valid Waj archive : "@ + self.0@
    }

    /// Renders the error.
    pub fn message(&self) -> (text: String)
        ensures
            text@ == self.message_spec(),
    {
        String::from_str("Jbk archive is not a valid Waj archive : ").concat(self.0)
    }
}

/// What can go wrong below the level of paths.
#[derive(Debug)]
pub enum BaseError {
    /// The container layer failed; the field is its own report.
    Jbk(String),
    /// The container is no web archive.
    WajFormatError(WajFormatError),
}

impl BaseError {
    /// The text shown for this error.
    pub open spec fn message_spec(self) -> Seq<char> {
        match self {
            BaseError::Jbk(report) => report@,
            BaseError::WajFormatError(e) => e.message_spec(),
        }
    }

    /// Renders the error.
    pub fn message(&self) -> (text: String)
        ensures
            text@ == self.message_spec(),
    {
        match self {
            BaseError::Jbk(report) => report.clone(),
            BaseError::WajFormatError(e) => e.message(),
        }
    }
}

impl From<WajFormatError> for BaseError {
    fn from(value: WajFormatError) -> (e: Self) {
        BaseError::WajFormatError(value)
    }
}

impl FromSpecImpl<WajFormatError> for BaseError {
    open spec fn obeys_from_spec() -> bool {
        true
    }

    open spec fn from_spec(value: WajFormatError) -> Self {
        BaseError::WajFormatError(value)
    }
}

/// What can go wrong when an archive is opened or queried.
#[derive(Debug)]
pub enum WajError {
    BaseError(BaseError),
    /// Reading failed; the field is the system's report.
    IoError(String),
    /// No entry has the path asked for. The field describes the lookup.
    PathNotFound(String),
}

impl WajError {
    /// The text shown for this error.
    pub open spec fn message_spec(self) -> Seq<char> {
        match self {
            WajError::BaseError(e) => e.message_spec(),
            WajError::IoError(report) => report@,
            WajError::PathNotFound(path) => "Path "@ + path@ + " not found in archive"@,
        }
    }

    /// Renders the error.
    pub fn message(&self) -> (text: String)
        ensures
            text@ == self.message_spec(),
    {
        match self {
            WajError::BaseError(e) => e.message(),
            WajError::IoError(report) => report.clone(),
            WajError::PathNotFound(path) => String::from_str("Path ").concat(
                path.as_str(),
            ).concat(" not found in archive"),
        }
    }
}

impl From<BaseError> for WajError {
    fn from(value: BaseError) -> (e: Self) {
        WajError::BaseError(value)
    }
}

impl FromSpecImpl<BaseError> for WajError {
    open spec fn obeys_from_spec() -> bool {
        true
    }

    open spec fn from_spec(value: BaseError) -> Self {
        WajError::BaseError(value)
    }
}

impl From<WajFormatError> for WajError {
    fn from(value: WajFormatError) -> (e: Self) {
        WajError::BaseError(BaseError::WajFormatError(value))
    }
}

impl FromSpecImpl<WajFormatError> for WajError {
    open spec fn obeys_from_spec() -> bool {
        true
    }

    open spec fn from_spec(value: WajFormatError) -> Self {
        WajError::BaseError(BaseError::WajFormatError(value))
    }
}

/// What can go wrong while an archive is created. Each field is the report
/// of the layer that failed.
#[derive(Debug)]
pub enum CreatorError {
    Jbk(String),
    IoError(String),
}

impl CreatorError {
    /// The text shown for this error.
    pub open spec fn message_spec(self) -> Seq<char> {
        match self {
            CreatorError::Jbk(report) => report@,
            CreatorError::IoError(report) => report@,
        }
    }

    /// Renders the error.
    pub fn message(&self) -> (text: String)
        ensures
            text@ == self.message_spec(),
    {
        match self {
            CreatorError::Jbk(report) => report.clone(),
            CreatorError::IoError(report) => report.clone(),
        }
    }
}

} // verus!
