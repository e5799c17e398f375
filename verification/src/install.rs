//! Install orchestration: resolving what to install, serializing
//! concurrent installs of the same pair through staging claims, and
//! registering the result only after the staged directory has been
//! atomically promoted to its final path.
//!
//! The manager itself performs no download, extraction or file move.
//! `begin_install` decides and hands the caller an action; the caller
//! performs the long-running work in a private staging area outside
//! any lock and reports how it ended to `complete_remote` or
//! `complete_local`. The registry is touched only on a successful
//! promotion, so an installer killed mid-download or mid-extraction
//! leaves the registry exactly as it was: at worst a stale staging
//! directory remains, never a partial entry.
//!
//! A staging claim stands for the on-disk marker that makes one
//! invocation the owner of (candidate, version) while it stages.

use vstd::prelude::*;

use crate::assoc::assoc_lookup;
use crate::assoc::assoc_unique;
use crate::assoc::lemma_assoc_first_match;
use crate::assoc::lemma_assoc_none_iff;
use crate::assoc::lemma_assoc_push;
use crate::assoc::lemma_assoc_remove;
use crate::assoc::lemma_assoc_unique_push;
use crate::assoc::lemma_assoc_unique_remove;
use crate::catalog::CatalogStore;
use crate::registry::string_eq;
use crate::registry::EntryV;
use crate::registry::InstallSource;
use crate::registry::InstalledVersion;
use crate::registry::opt_str_view;
use crate::registry::Registry;
use crate::ErrorKind;

verus! {

/// The staging ownership of one (candidate, version) install.
pub struct StagingClaim {
    pub candidate: String,
    pub version: String,
}

/// What `begin_install` tells the caller to do.
pub enum InstallAction {
    /// The pair is already installed; nothing to acquire.
    AlreadyInstalled,
    /// Another installer owns the pair's staging claim; wait for it to
    /// finish and ask again.
    Wait,
    /// Download the archive at `url`, verify, extract into staging,
    /// atomically move staging to the final path, then report to
    /// `complete_remote`.
    FetchRemote { url: String },
    /// Validate the caller-owned directory at `path` and report to
    /// `complete_local`; the registry will reference it, never copy or
    /// delete it.
    LinkLocal { path: String },
}

/// The resolved version together with what to do for it.
pub struct InstallPlan {
    pub version: String,
    pub action: InstallAction,
}

/// How the staged remote acquisition ended.
#[derive(Clone, Copy, PartialEq, Eq, Structural, Debug)]
pub enum RemoteOutcome {
    /// Downloaded, verified, extracted, and atomically moved into the
    /// final install path.
    Moved,
    /// The download could not be fetched.
    NetworkFailed,
    /// Verification or extraction of the archive failed.
    ArchiveCorrupt,
    /// The final atomic move failed; staging is left in place for
    /// inspection rather than silently deleted.
    MoveFailed,
}

/// Serializes installs per (candidate, version) and decides install
/// resolution. `strict` makes a second concurrent installer of a pair
/// fail with `AlreadyInstalling` instead of being told to wait.
pub struct InstallManager {
    pub claims: Vec<StagingClaim>,
    pub strict: bool,
}

impl InstallManager {
    pub open spec fn claims_assoc(self) -> Seq<((Seq<char>, Seq<char>), bool)> {
        self.claims@.map_values(|cl: StagingClaim| ((cl.candidate@, cl.version@), true))
    }

    /// Whether some installer currently owns the pair's staging claim.
    pub open spec fn claimed(self, c: Seq<char>, v: Seq<char>) -> bool {
        assoc_lookup(self.claims_assoc(), (c, v)) is Some
    }

    pub open spec fn wf(self) -> bool {
        assoc_unique(self.claims_assoc())
    }

    /// A manager with no claims outstanding.
    pub fn new(strict: bool) -> (r: InstallManager)
        ensures
            r.wf(),
            r.claims@.len() == 0,
            r.strict == strict,
    {
        InstallManager { claims: Vec::new(), strict }
    }

    /// Index of the claim for (c, v).
    fn find_claim(&self, c: &String, v: &String) -> (r: Option<usize>)
        ensures
            match r {
                Some(i) => i < self.claims@.len() && self.claims@[i as int].candidate@ == c@
                    && self.claims@[i as int].version@ == v@ && self.claimed(c@, v@),
                None => !self.claimed(c@, v@),
            },
    {
        let mut i: usize = 0;
        while i < self.claims.len()
            invariant
                i <= self.claims@.len(),
                forall|j: int|
                    0 <= j < i ==> !(#[trigger] self.claims@[j].candidate@ == c@
                        && self.claims@[j].version@ == v@),
            decreases self.claims@.len() - i,
        {
            let cl = &self.claims[i];
            if string_eq(&cl.candidate, c) && string_eq(&cl.version, v) {
                proof {
                    assert forall|j: int| 0 <= j < i implies self.claims_assoc()[j].0 != (
                    c@,
                    v@,
                    ) by {
                        assert(self.claims_assoc()[j].0 == (
                            self.claims@[j].candidate@,
                            self.claims@[j].version@,
                        ));
                    }
                    assert(self.claims_assoc()[i as int].0 == (c@, v@));
                    lemma_assoc_first_match(self.claims_assoc(), (c@, v@), i as int);
                }
                return Some(i);
            }
            i += 1;
        }
        proof {
            assert forall|j: int| 0 <= j < self.claims_assoc().len() implies self.claims_assoc()[j].0
                != (c@, v@) by {
                assert(self.claims_assoc()[j].0 == (
                    self.claims@[j].candidate@,
                    self.claims@[j].version@,
                ));
            }
            lemma_assoc_none_iff(self.claims_assoc(), (c@, v@));
        }
        None
    }

    /// Releases the claim for (c, v), if one is held.
    fn drop_claim(&mut self, c: &String, v: &String)
        requires
            old(self).wf(),
        ensures
            final(self).wf(),
            !final(self).claimed(c@, v@),
            forall|c2: Seq<char>, v2: Seq<char>|
                !(c2 == c@ && v2 == v@) ==> #[trigger] final(self).claimed(c2, v2) == old(
                    self,
                ).claimed(c2, v2),
            final(self).strict == old(self).strict,
    {
        let ghost pre = *self;
        match self.find_claim(c, v) {
            Some(i) => {
                self.claims.remove(i);
                proof {
                    assert(self.claims_assoc() =~= pre.claims_assoc().remove(i as int));
                    lemma_assoc_unique_remove(pre.claims_assoc(), i as int);
                    assert(pre.claims_assoc()[i as int].0 == (c@, v@));
                    lemma_assoc_remove(pre.claims_assoc(), i as int, (c@, v@));
                    assert forall|c2: Seq<char>, v2: Seq<char>| !(c2 == c@ && v2 == v@)
                        implies #[trigger] self.claimed(c2, v2) == pre.claimed(c2, v2) by {
                        lemma_assoc_remove(pre.claims_assoc(), i as int, (c2, v2));
                    }
                }
            },
            None => {},
        }
    }

    /// Takes the claim for (c, v); the caller has checked none is
    /// held.
    fn take_claim(&mut self, c: &String, v: &String)
        requires
            old(self).wf(),
            !old(self).claimed(c@, v@),
        ensures
            final(self).wf(),
            final(self).claimed(c@, v@),
            forall|c2: Seq<char>, v2: Seq<char>|
                !(c2 == c@ && v2 == v@) ==> #[trigger] final(self).claimed(c2, v2) == old(
                    self,
                ).claimed(c2, v2),
            final(self).strict == old(self).strict,
    {
        let ghost pre = *self;
        self.claims.push(StagingClaim { candidate: c.clone(), version: v.clone() });
        proof {
            let p = ((c@, v@), true);
            assert(self.claims_assoc() =~= pre.claims_assoc().push(p));
            lemma_assoc_none_iff(pre.claims_assoc(), (c@, v@));
            lemma_assoc_unique_push(pre.claims_assoc(), p);
            lemma_assoc_push(pre.claims_assoc(), p, (c@, v@));
            assert forall|c2: Seq<char>, v2: Seq<char>| !(c2 == c@ && v2 == v@)
                implies #[trigger] self.claimed(c2, v2) == pre.claimed(c2, v2) by {
                lemma_assoc_push(pre.claims_assoc(), p, (c2, v2));
            }
        }
    }

    /// Decides an install of `candidate`. With no version given, the
    /// latest stable catalog version is resolved; an unknown candidate
    /// fails with `NoSuchCandidate` and a known one without an
    /// installable version with `NoVersionsAvailable`. An installed
    /// pair needs no work; a pair whose claim another installer holds
    /// is waited for, or refused in strict mode; otherwise the caller
    /// acquires the claim and is told how to stage the install.
    pub fn begin_install(
        &mut self,
        reg: &Registry,
        cat: &CatalogStore,
        candidate: &String,
        version: Option<String>,
        local_path: Option<String>,
    ) -> (r: Result<InstallPlan, ErrorKind>)
        requires
            old(self).wf(),
        ensures
            final(self).wf(),
            final(self).strict == old(self).strict,
            ({
                let resolved = match version {
                    Some(v) => Some(v@),
                    None => cat.latest_of(candidate@),
                };
                match resolved {
                    None => r == Err::<InstallPlan, ErrorKind>(
                        if cat.spec_has_candidate(candidate@) {
                            ErrorKind::NoVersionsAvailable
                        } else {
                            ErrorKind::NoSuchCandidate
                        },
                    ) && *final(self) == *old(self),
                    Some(rv) => {
                        &&& reg.is_installed(candidate@, rv) ==> r is Ok && r->Ok_0.version@ == rv
                            && r->Ok_0.action is AlreadyInstalled && *final(self) == *old(self)
                        &&& !reg.is_installed(candidate@, rv) && old(self).claimed(candidate@, rv)
                            ==> *final(self) == *old(self) && (if old(self).strict {
                            r == Err::<InstallPlan, ErrorKind>(ErrorKind::AlreadyInstalling)
                        } else {
                            r is Ok && r->Ok_0.version@ == rv && r->Ok_0.action is Wait
                        })
                        &&& !reg.is_installed(candidate@, rv) && !old(self).claimed(candidate@, rv)
                            && local_path is Some ==> r is Ok && r->Ok_0.version@ == rv
                            && (r->Ok_0.action matches InstallAction::LinkLocal { path } && path@
                            == local_path->0@) && final(self).claimed(candidate@, rv) && (forall|
                            c2: Seq<char>,
                            v2: Seq<char>,
                        |
                            !(c2 == candidate@ && v2 == rv) ==> #[trigger] final(self).claimed(
                                c2,
                                v2,
                            ) == old(self).claimed(c2, v2))
                        &&& !reg.is_installed(candidate@, rv) && !old(self).claimed(candidate@, rv)
                            && local_path is None && cat.url_of(candidate@, rv) is Some ==> r is Ok
                            && r->Ok_0.version@ == rv && (r->Ok_0.action
                            matches InstallAction::FetchRemote { url } && url@ == cat.url_of(
                            candidate@,
                            rv,
                        )->0) && final(self).claimed(candidate@, rv) && (forall|
                            c2: Seq<char>,
                            v2: Seq<char>,
                        |
                            !(c2 == candidate@ && v2 == rv) ==> #[trigger] final(self).claimed(
                                c2,
                                v2,
                            ) == old(self).claimed(c2, v2))
                        &&& !reg.is_installed(candidate@, rv) && !old(self).claimed(candidate@, rv)
                            && local_path is None && cat.url_of(candidate@, rv) is None ==> r
                            == Err::<InstallPlan, ErrorKind>(
                            if cat.spec_has_candidate(candidate@) {
                                ErrorKind::NoVersionsAvailable
                            } else {
                                ErrorKind::NoSuchCandidate
                            },
                        ) && *final(self) == *old(self)
                    },
                }
            }),
    {
        let rv: String = match version {
            Some(v) => v,
            None => {
                match cat.latest_stable(candidate) {
                    Ok(v) => v,
                    Err(_) => {
                        if cat.has_candidate(candidate) {
                            return Err(ErrorKind::NoVersionsAvailable);
                        }
                        return Err(ErrorKind::NoSuchCandidate);
                    },
                }
            },
        };
        if reg.get_installed(candidate, &rv).is_some() {
            return Ok(InstallPlan { version: rv, action: InstallAction::AlreadyInstalled });
        }
        if self.find_claim(candidate, &rv).is_some() {
            if self.strict {
                return Err(ErrorKind::AlreadyInstalling);
            }
            return Ok(InstallPlan { version: rv, action: InstallAction::Wait });
        }
        match local_path {
            Some(p) => {
                self.take_claim(candidate, &rv);
                Ok(InstallPlan { version: rv, action: InstallAction::LinkLocal { path: p } })
            },
            None => {
                match cat.url_for(candidate, &rv) {
                    Some(u) => {
                        self.take_claim(candidate, &rv);
                        Ok(
                            InstallPlan {
                                version: rv,
                                action: InstallAction::FetchRemote { url: u },
                            },
                        )
                    },
                    None => {
                        if cat.has_candidate(candidate) {
                            return Err(ErrorKind::NoVersionsAvailable);
                        }
                        Err(ErrorKind::NoSuchCandidate)
                    },
                }
            },
        }
    }

    /// Settles a staged remote install. Only a successful atomic move
    /// registers anything: every failure outcome leaves the registry
    /// exactly as it was, reports its own error kind, and releases the
    /// claim either way.
    pub fn complete_remote(
        &mut self,
        reg: &mut Registry,
        candidate: &String,
        version: &String,
        install_path: String,
        checksum: Option<String>,
        outcome: RemoteOutcome,
        timestamp: u64,
    ) -> (r: Result<InstalledVersion, ErrorKind>)
        requires
            old(self).wf(),
            old(reg).wf(),
        ensures
            final(self).wf(),
            final(reg).wf(),
            final(self).strict == old(self).strict,
            !final(self).claimed(candidate@, version@),
            forall|c2: Seq<char>, v2: Seq<char>|
                !(c2 == candidate@ && v2 == version@) ==> #[trigger] final(self).claimed(c2, v2)
                    == old(self).claimed(c2, v2),
            outcome == RemoteOutcome::NetworkFailed ==> r == Err::<InstalledVersion, ErrorKind>(
                ErrorKind::NetworkUnavailable,
            ) && *final(reg) == *old(reg),
            outcome == RemoteOutcome::ArchiveCorrupt ==> r == Err::<InstalledVersion, ErrorKind>(
                ErrorKind::CorruptArchive,
            ) && *final(reg) == *old(reg),
            outcome == RemoteOutcome::MoveFailed ==> r == Err::<InstalledVersion, ErrorKind>(
                ErrorKind::InstallIncomplete,
            ) && *final(reg) == *old(reg),
            outcome == RemoteOutcome::Moved && old(reg).is_installed(candidate@, version@) ==> r
                == Err::<InstalledVersion, ErrorKind>(ErrorKind::AlreadyInstalling) && *final(reg) == *old(
                reg,
            ),
            outcome == RemoteOutcome::Moved && !old(reg).is_installed(candidate@, version@) ==> {
                &&& r is Ok
                &&& r->Ok_0@ == (EntryV {
                    candidate: candidate@,
                    version: version@,
                    install_path: install_path@,
                    source: InstallSource::Remote,
                    checksum: opt_str_view(checksum),
                    timestamp: timestamp,
                })
                &&& final(reg).entry_of(candidate@, version@) == Some(r->Ok_0@)
                &&& forall|c2: Seq<char>, v2: Seq<char>|
                    !(c2 == candidate@ && v2 == version@) ==> #[trigger] final(reg).entry_of(
                        c2,
                        v2,
                    ) == old(reg).entry_of(c2, v2)
                &&& final(reg).globals@ == old(reg).globals@
                &&& final(reg).overrides@ == old(reg).overrides@
            },
    {
        let result = match outcome {
            RemoteOutcome::Moved => reg.register(
                candidate.clone(),
                version.clone(),
                install_path,
                InstallSource::Remote,
                checksum,
                timestamp,
            ),
            RemoteOutcome::NetworkFailed => Err(ErrorKind::NetworkUnavailable),
            RemoteOutcome::ArchiveCorrupt => Err(ErrorKind::CorruptArchive),
            RemoteOutcome::MoveFailed => Err(ErrorKind::InstallIncomplete),
        };
        self.drop_claim(candidate, version);
        result
    }

    /// Settles a local-path install. The path was only validated, so
    /// a missing directory or entrypoint fails with `NotFound` and
    /// leaves the registry untouched; a valid one is registered by
    /// reference, unverified, and never copied.
    pub fn complete_local(
        &mut self,
        reg: &mut Registry,
        candidate: &String,
        version: &String,
        path: String,
        path_exists: bool,
        has_entrypoint: bool,
        timestamp: u64,
    ) -> (r: Result<InstalledVersion, ErrorKind>)
        requires
            old(self).wf(),
            old(reg).wf(),
        ensures
            final(self).wf(),
            final(reg).wf(),
            final(self).strict == old(self).strict,
            !final(self).claimed(candidate@, version@),
            forall|c2: Seq<char>, v2: Seq<char>|
                !(c2 == candidate@ && v2 == version@) ==> #[trigger] final(self).claimed(c2, v2)
                    == old(self).claimed(c2, v2),
            !(path_exists && has_entrypoint) ==> r == Err::<InstalledVersion, ErrorKind>(
                ErrorKind::NotFound,
            ) && *final(reg) == *old(reg),
            path_exists && has_entrypoint && old(reg).is_installed(candidate@, version@) ==> r
                == Err::<InstalledVersion, ErrorKind>(ErrorKind::AlreadyInstalling) && *final(reg) == *old(
                reg,
            ),
            path_exists && has_entrypoint && !old(reg).is_installed(candidate@, version@) ==> {
                &&& r is Ok
                &&& r->Ok_0@ == (EntryV {
                    candidate: candidate@,
                    version: version@,
                    install_path: path@,
                    source: InstallSource::LocalPath,
                    checksum: None,
                    timestamp: timestamp,
                })
                &&& final(reg).entry_of(candidate@, version@) == Some(r->Ok_0@)
                &&& forall|c2: Seq<char>, v2: Seq<char>|
                    !(c2 == candidate@ && v2 == version@) ==> #[trigger] final(reg).entry_of(
                        c2,
                        v2,
                    ) == old(reg).entry_of(c2, v2)
                &&& final(reg).globals@ == old(reg).globals@
                &&& final(reg).overrides@ == old(reg).overrides@
            },
    {
        let result = if path_exists && has_entrypoint {
            reg.register(
                candidate.clone(),
                version.clone(),
                path,
                InstallSource::LocalPath,
                None,
                timestamp,
            )
        } else {
            Err(ErrorKind::NotFound)
        };
        self.drop_claim(candidate, version);
        result
    }
}

} // verus!
