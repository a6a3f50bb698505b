//! The ways building a summary can fail.

use vstd::prelude::*;

verus! {

/// A failure that stops the summary from being built.
#[derive(Clone, Copy, Debug, PartialEq, Eq, Structural)]
pub enum Error {
    /// The path is not inside a git repository.
    NotARepository,
    /// The repository has no working tree.
    BareRepository,
    /// The working tree holds no line of code in a known language.
    NoSourceCodeFound,
    /// The current commit or the references at it could not be resolved.
    ReferenceResolutionFailed,
    /// The repository's configuration could not be read.
    ConfigurationUnavailable,
    /// The top-level directory could not be listed.
    DirectoryUnreadable,
}

/// The message shown for failure `e`.
pub open spec fn message_of(e: Error) -> Seq<char> {
    match e {
        Error::NotARepository => "please run onefetch inside of a non-bare git repository"@,
        Error::BareRepository => "unable to run onefetch on bare git repositories"@,
        Error::NoSourceCodeFound => "one or more languages must be detected"@,
        Error::ReferenceResolutionFailed => "unable to retrieve reference information"@,
        Error::ConfigurationUnavailable => "unable to read the git configuration"@,
        Error::DirectoryUnreadable => "could not read directory"@,
    }
}

impl Error {
    /// The message shown for this failure.
    pub fn message(&self) -> (r: &'static str)
        ensures
            r@ == message_of(*self),
    {
        match *self {
            Error::NotARepository => "please run onefetch inside of a non-bare git repository",
            Error::BareRepository => "unable to run onefetch on bare git repositories",
            Error::NoSourceCodeFound => "one or more languages must be detected",
            Error::ReferenceResolutionFailed => "unable to retrieve reference information",
            Error::ConfigurationUnavailable => "unable to read the git configuration",
            Error::DirectoryUnreadable => "could not read directory",
        }
    }
}

} // verus!
