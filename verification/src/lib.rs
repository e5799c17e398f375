//! Core of a developer-SDK version manager: a registry of installed
//! candidate/version pairs, global and per-session "current" pointers,
//! install orchestration with staged acquisition, and a cached catalog
//! of remotely installable versions.

use vstd::prelude::*;

pub mod assoc;
pub mod catalog;
pub mod dispatch;
pub mod install;
pub mod platform;
pub mod registry;
pub mod switcher;

verus! {

/// The error kinds that registry, switcher, install and catalog
/// operations report. Every operation says in its contract exactly
/// which inputs produce which kind.
#[derive(Clone, Copy, PartialEq, Eq, Structural, Debug)]
pub enum ErrorKind {
    /// The named candidate/version pair is not installed.
    NotInstalled,
    /// Another caller currently holds the staging claim for this pair.
    AlreadyInstalling,
    /// The pair is the global default and removal was not forced.
    IsCurrent,
    /// The candidate does not appear in the catalog snapshot.
    NoSuchCandidate,
    /// The candidate is known but no installable version is available.
    NoVersionsAvailable,
    /// The network could not be reached and no cached snapshot exists.
    NetworkUnavailable,
    /// A downloaded archive failed verification or extraction.
    CorruptArchive,
    /// The final atomic move failed; staging is left for inspection.
    InstallIncomplete,
    /// The exclusive registry lock could not be acquired in time.
    RegistryLocked,
    /// The requested entry, path or catalog item does not exist.
    NotFound,
    /// No version is configured as current for the candidate.
    NoneInstalled,
}

impl ErrorKind {
    /// A short stable name for the kind, for messages and exit-code
    /// mapping in the shell layer.
    pub fn name(&self) -> (r: &'static str)
        ensures
            r@ == self.spec_name(),
    {
        match self {
            ErrorKind::NotInstalled => "not installed",
            ErrorKind::AlreadyInstalling => "already installing",
            ErrorKind::IsCurrent => "is current",
            ErrorKind::NoSuchCandidate => "no such candidate",
            ErrorKind::NoVersionsAvailable => "no versions available",
            ErrorKind::NetworkUnavailable => "network unavailable",
            ErrorKind::CorruptArchive => "corrupt archive",
            ErrorKind::InstallIncomplete => "install incomplete",
            ErrorKind::RegistryLocked => "registry locked",
            ErrorKind::NotFound => "not found",
            ErrorKind::NoneInstalled => "none installed",
        }
    }

    pub open spec fn spec_name(self) -> Seq<char> {
        match self {
            ErrorKind::NotInstalled => "not installed"@,
            ErrorKind::AlreadyInstalling => "already installing"@,
            ErrorKind::IsCurrent => "is current"@,
            ErrorKind::NoSuchCandidate => "no such candidate"@,
            ErrorKind::NoVersionsAvailable => "no versions available"@,
            ErrorKind::NetworkUnavailable => "network unavailable"@,
            ErrorKind::CorruptArchive => "corrupt archive"@,
            ErrorKind::InstallIncomplete => "install incomplete"@,
            ErrorKind::RegistryLocked => "registry locked"@,
            ErrorKind::NotFound => "not found"@,
            ErrorKind::NoneInstalled => "none installed"@,
        }
    }
}

} // verus!
