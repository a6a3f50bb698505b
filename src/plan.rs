//! The first decision of a run: whether the path is a repository with a
//! working tree, and so which probes to launch.

use crate::error::Error;
use vstd::prelude::*;

verus! {

/// What discovering the repository at a path found.
#[derive(Clone, Debug)]
pub enum Discovery {
    /// The path is in no repository.
    NotARepository,
    /// The repository has no working tree.
    Bare,
    /// The repository's working tree, at this path.
    WorkTree(String),
}

/// One independent probe of the repository.
#[derive(Clone, Copy, Debug, PartialEq, Eq, Structural)]
pub enum Probe {
    Languages,
    Configuration,
    CurrentCommit,
    History,
    GitInfo,
    Version,
    Pending,
    PackedSize,
    LastChange,
    License,
}

/// Every probe, in the order in which they are launched.
pub open spec fn all_probes() -> Seq<Probe> {
    seq![
        Probe::Languages,
        Probe::Configuration,
        Probe::CurrentCommit,
        Probe::History,
        Probe::GitInfo,
        Probe::Version,
        Probe::Pending,
        Probe::PackedSize,
        Probe::LastChange,
        Probe::License,
    ]
}


/// Decides, from what discovery found, which probes to launch: none where
/// the path is not in a repository (`NotARepository`) or the repository has
/// no working tree (`BareRepository`), every probe otherwise. The probes all
/// work on the working tree, so a failed discovery launches nothing.
pub fn plan_probes(found: &Discovery) -> (r: Result<Vec<Probe>, Error>)
    ensures
        found is NotARepository ==> r == Err::<Vec<Probe>, Error>(Error::NotARepository),
        found is Bare ==> r == Err::<Vec<Probe>, Error>(Error::BareRepository),
        found is WorkTree ==> r is Ok && r->Ok_0@ == all_probes(),
{
    match found {
        Discovery::NotARepository => Err(Error::NotARepository),
        Discovery::Bare => Err(Error::BareRepository),
        Discovery::WorkTree(_) => {
            let v = vec![
                Probe::Languages,
                Probe::Configuration,
                Probe::CurrentCommit,
                Probe::History,
                Probe::GitInfo,
                Probe::Version,
                Probe::Pending,
                Probe::PackedSize,
                Probe::LastChange,
                Probe::License,
            ];
            assert(v@ =~= all_probes());
            Ok(v)
        },
    }
}

} // verus!
