//! The ways in which an operation of the engine can stop.

use vstd::prelude::*;

verus! {

/// Why an operation stopped.
#[derive(Debug, PartialEq, Eq)]
pub enum Error {
    /// The file system refused a scan, a read, a write or a deletion.
    Io,
    /// An installer ended with anything but exit status 0. Holds the exit
    /// code, or `None` where the process ended without one.
    InstallerFailure(Option<i32>),
    /// The operation needs a version that is not installed. Holds that version.
    NotInstalled(String),
    /// The default version was asked for before any was set.
    NotConfigured,
    /// A generated file exists but does not have the form it was written in.
    MalformedState,
}

/// The mathematical value of an [`Error`].
pub enum ErrorModel {
    Io,
    InstallerFailure(Option<i32>),
    NotInstalled(Seq<char>),
    NotConfigured,
    MalformedState,
}

impl View for Error {
    type V = ErrorModel;

    open spec fn view(&self) -> ErrorModel {
        match self {
            Error::Io => ErrorModel::Io,
            Error::InstallerFailure(code) => ErrorModel::InstallerFailure(*code),
            Error::NotInstalled(version) => ErrorModel::NotInstalled(version@),
            Error::NotConfigured => ErrorModel::NotConfigured,
            Error::MalformedState => ErrorModel::MalformedState,
        }
    }
}

} // verus!
