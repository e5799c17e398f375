//! The installation registry: the source of truth for which
//! candidate/version pairs are installed, which version is the global
//! default of a candidate, and which version a shell session has
//! pinned for itself.
//!
//! The registry is plain data. The shell layer loads it from the
//! registry index file under an exclusive lock, calls one mutating
//! operation, and atomically replaces the file; every operation here
//! is a total function from the old state to the new one, so a
//! concurrent reader of the file sees either the fully-old or the
//! fully-new registry, never a mixture.

use vstd::prelude::*;

use crate::assoc::assoc_lookup;
use crate::assoc::assoc_unique;
use crate::assoc::lemma_assoc_first_match;
use crate::assoc::lemma_assoc_none_iff;
use crate::assoc::lemma_assoc_push;
use crate::assoc::lemma_assoc_remove;
use crate::assoc::lemma_assoc_some_index;
use crate::assoc::lemma_assoc_unique_match;
use crate::assoc::lemma_assoc_unique_push;
use crate::assoc::lemma_assoc_unique_remove;
use crate::ErrorKind;

verus! {

/// How an installed version was acquired: downloaded and extracted
/// into a registry-owned directory, or registered by reference to a
/// caller-owned local path that uninstalling must never delete.
#[derive(Clone, Copy, PartialEq, Eq, Structural, Debug)]
pub enum InstallSource {
    Remote,
    LocalPath,
}

/// One installed candidate/version pair. Once registered, the
/// directory behind `install_path` is treated as immutable; an upgrade
/// registers a new record instead of mutating this one.
pub struct InstalledVersion {
    pub candidate: String,
    pub version: String,
    pub install_path: String,
    pub source: InstallSource,
    /// Integrity marker: the checksum the archive was verified
    /// against, or `None` for an unverified (local-path) install.
    pub checksum: Option<String>,
    pub timestamp: u64,
}

/// Mathematical image of an `InstalledVersion`.
#[verifier::ext_equal]
pub struct EntryV {
    pub candidate: Seq<char>,
    pub version: Seq<char>,
    pub install_path: Seq<char>,
    pub source: InstallSource,
    pub checksum: Option<Seq<char>>,
    pub timestamp: u64,
}

pub open spec fn opt_str_view(o: Option<String>) -> Option<Seq<char>> {
    match o {
        Some(s) => Some(s@),
        None => None,
    }
}

impl View for InstalledVersion {
    type V = EntryV;

    open spec fn view(&self) -> EntryV {
        EntryV {
            candidate: self.candidate@,
            version: self.version@,
            install_path: self.install_path@,
            source: self.source,
            checksum: opt_str_view(self.checksum),
            timestamp: self.timestamp,
        }
    }
}

impl Clone for InstalledVersion {
    fn clone(&self) -> (r: Self)
        ensures
            r == *self,
    {
        InstalledVersion {
            candidate: self.candidate.clone(),
            version: self.version.clone(),
            install_path: self.install_path.clone(),
            source: self.source,
            checksum: match &self.checksum {
                Some(s) => Some(s.clone()),
                None => None,
            },
            timestamp: self.timestamp,
        }
    }
}

/// The persisted global default of one candidate.
pub struct GlobalDefault {
    pub candidate: String,
    pub version: String,
}

/// One shell session's transient version pin for a candidate. It
/// shadows the global default for that session alone and is discarded
/// with the session.
pub struct SessionOverride {
    pub session: u64,
    pub candidate: String,
    pub version: String,
}

/// Compares two strings; the result is their view equality.
pub fn string_eq(a: &String, b: &String) -> (r: bool)
    ensures
        r == (a@ == b@),
{
    a.eq(b)
}

/// The registry state: installed versions, global defaults, session
/// overrides. A session override that outlives its version is kept in
/// the data but ignored by `current_of`: it falls back to the global
/// default, which is the documented invalidation policy.
pub struct Registry {
    pub entries: Vec<InstalledVersion>,
    pub globals: Vec<GlobalDefault>,
    pub overrides: Vec<SessionOverride>,
}

impl Registry {
    /// The installed pairs as an association from (candidate, version)
    /// to the full record.
    pub open spec fn entries_assoc(self) -> Seq<((Seq<char>, Seq<char>), EntryV)> {
        self.entries@.map_values(|e: InstalledVersion| ((e.candidate@, e.version@), e@))
    }

    /// The installed records, in registration order.
    pub open spec fn entries_v(self) -> Seq<EntryV> {
        self.entries@.map_values(|e: InstalledVersion| e@)
    }

    pub open spec fn globals_assoc(self) -> Seq<(Seq<char>, Seq<char>)> {
        self.globals@.map_values(|g: GlobalDefault| (g.candidate@, g.version@))
    }

    pub open spec fn overrides_assoc(self) -> Seq<((u64, Seq<char>), Seq<char>)> {
        self.overrides@.map_values(|o: SessionOverride| ((o.session, o.candidate@), o.version@))
    }

    pub open spec fn entry_of(self, c: Seq<char>, v: Seq<char>) -> Option<EntryV> {
        assoc_lookup(self.entries_assoc(), (c, v))
    }

    pub open spec fn is_installed(self, c: Seq<char>, v: Seq<char>) -> bool {
        self.entry_of(c, v) is Some
    }

    /// The persisted global default version of a candidate.
    pub open spec fn global_of(self, c: Seq<char>) -> Option<Seq<char>> {
        assoc_lookup(self.globals_assoc(), c)
    }

    /// The version a session has pinned for a candidate, if any.
    pub open spec fn override_of(self, session: u64, c: Seq<char>) -> Option<Seq<char>> {
        assoc_lookup(self.overrides_assoc(), (session, c))
    }

    /// What `get_current` resolves for a session: its own override
    /// when that version is still installed, else the global default.
    pub open spec fn current_of(self, session: u64, c: Seq<char>) -> Option<Seq<char>> {
        match self.override_of(session, c) {
            Some(v) => if self.is_installed(c, v) {
                Some(v)
            } else {
                self.global_of(c)
            },
            None => self.global_of(c),
        }
    }

    /// Well-formedness: each candidate/version pair is registered at
    /// most once, each candidate has at most one global default and
    /// each (session, candidate) at most one override, and every
    /// global default names an installed version.
    pub open spec fn wf(self) -> bool {
        &&& assoc_unique(self.entries_assoc())
        &&& assoc_unique(self.globals_assoc())
        &&& assoc_unique(self.overrides_assoc())
        &&& forall|i: int|
            0 <= i < self.globals@.len() ==> self.is_installed(
                #[trigger] self.globals@[i].candidate@,
                self.globals@[i].version@,
            )
    }

    /// An empty registry: nothing installed, nothing configured.
    pub fn new() -> (r: Registry)
        ensures
            r.wf(),
            r.entries@.len() == 0,
            r.globals@.len() == 0,
            r.overrides@.len() == 0,
    {
        Registry { entries: Vec::new(), globals: Vec::new(), overrides: Vec::new() }
    }

    /// Index of the record for (c, v), or `None` when the pair is not
    /// installed.
    fn find_entry(&self, c: &String, v: &String) -> (r: Option<usize>)
        ensures
            match r {
                Some(i) => i < self.entries@.len() && self.entries@[i as int].candidate@ == c@
                    && self.entries@[i as int].version@ == v@ && self.entry_of(c@, v@) == Some(
                    self.entries@[i as int]@,
                ),
                None => self.entry_of(c@, v@) is None,
            },
    {
        let mut i: usize = 0;
        while i < self.entries.len()
            invariant
                i <= self.entries@.len(),
                forall|j: int|
                    0 <= j < i ==> !(#[trigger] self.entries@[j].candidate@ == c@
                        && self.entries@[j].version@ == v@),
            decreases self.entries@.len() - i,
        {
            let e = &self.entries[i];
            if string_eq(&e.candidate, c) && string_eq(&e.version, v) {
                proof {
                    assert forall|j: int| 0 <= j < i implies self.entries_assoc()[j].0 != (
                    c@,
                    v@,
                    ) by {
                        assert(self.entries_assoc()[j].0 == (
                            self.entries@[j].candidate@,
                            self.entries@[j].version@,
                        ));
                    }
                    assert(self.entries_assoc()[i as int].0 == (c@, v@));
                    lemma_assoc_first_match(self.entries_assoc(), (c@, v@), i as int);
                }
                return Some(i);
            }
            i += 1;
        }
        proof {
            assert forall|j: int| 0 <= j < self.entries_assoc().len() implies self.entries_assoc()[j].0
                != (c@, v@) by {
                assert(self.entries_assoc()[j].0 == (
                    self.entries@[j].candidate@,
                    self.entries@[j].version@,
                ));
            }
            lemma_assoc_none_iff(self.entries_assoc(), (c@, v@));
        }
        None
    }

    /// Index of the global default record of candidate c.
    fn find_global(&self, c: &String) -> (r: Option<usize>)
        ensures
            match r {
                Some(i) => i < self.globals@.len() && self.globals@[i as int].candidate@ == c@
                    && self.global_of(c@) == Some(self.globals@[i as int].version@),
                None => self.global_of(c@) is None,
            },
    {
        let mut i: usize = 0;
        while i < self.globals.len()
            invariant
                i <= self.globals@.len(),
                forall|j: int| 0 <= j < i ==> #[trigger] self.globals@[j].candidate@ != c@,
            decreases self.globals@.len() - i,
        {
            let g = &self.globals[i];
            if string_eq(&g.candidate, c) {
                proof {
                    assert forall|j: int| 0 <= j < i implies self.globals_assoc()[j].0 != c@ by {
                        assert(self.globals_assoc()[j].0 == self.globals@[j].candidate@);
                    }
                    assert(self.globals_assoc()[i as int].0 == c@);
                    lemma_assoc_first_match(self.globals_assoc(), c@, i as int);
                }
                return Some(i);
            }
            i += 1;
        }
        proof {
            assert forall|j: int| 0 <= j < self.globals_assoc().len() implies self.globals_assoc()[j].0
                != c@ by {
                assert(self.globals_assoc()[j].0 == self.globals@[j].candidate@);
            }
            lemma_assoc_none_iff(self.globals_assoc(), c@);
        }
        None
    }

    /// Index of the override record of (session, candidate).
    fn find_override(&self, session: u64, c: &String) -> (r: Option<usize>)
        ensures
            match r {
                Some(i) => i < self.overrides@.len() && self.overrides@[i as int].session == session
                    && self.overrides@[i as int].candidate@ == c@ && self.override_of(session, c@)
                    == Some(self.overrides@[i as int].version@),
                None => self.override_of(session, c@) is None,
            },
    {
        let mut i: usize = 0;
        while i < self.overrides.len()
            invariant
                i <= self.overrides@.len(),
                forall|j: int|
                    0 <= j < i ==> !(#[trigger] self.overrides@[j].session == session
                        && self.overrides@[j].candidate@ == c@),
            decreases self.overrides@.len() - i,
        {
            let o = &self.overrides[i];
            if o.session == session && string_eq(&o.candidate, c) {
                proof {
                    assert forall|j: int| 0 <= j < i implies self.overrides_assoc()[j].0 != (
                    session,
                    c@,
                    ) by {
                        assert(self.overrides_assoc()[j].0 == (
                            self.overrides@[j].session,
                            self.overrides@[j].candidate@,
                        ));
                    }
                    assert(self.overrides_assoc()[i as int].0 == (session, c@));
                    lemma_assoc_first_match(self.overrides_assoc(), (session, c@), i as int);
                }
                return Some(i);
            }
            i += 1;
        }
        proof {
            assert forall|j: int|
                0 <= j < self.overrides_assoc().len() implies self.overrides_assoc()[j].0 != (
            session,
            c@,
            ) by {
                assert(self.overrides_assoc()[j].0 == (
                    self.overrides@[j].session,
                    self.overrides@[j].candidate@,
                ));
            }
            lemma_assoc_none_iff(self.overrides_assoc(), (session, c@));
        }
        None
    }

    /// Records a freshly promoted install. Refuses a pair that is
    /// already registered: a present pair is owned by a finished
    /// install, and treating a repeat as success is the install
    /// manager's affair, not the registry's.
    pub fn register(
        &mut self,
        candidate: String,
        version: String,
        install_path: String,
        source: InstallSource,
        checksum: Option<String>,
        timestamp: u64,
    ) -> (r: Result<InstalledVersion, ErrorKind>)
        requires
            old(self).wf(),
        ensures
            final(self).wf(),
            old(self).is_installed(candidate@, version@) ==> r == Err::<InstalledVersion, ErrorKind>(
                ErrorKind::AlreadyInstalling,
            ) && *final(self) == *old(self),
            !old(self).is_installed(candidate@, version@) ==> {
                &&& r is Ok
                &&& r->Ok_0@ == (EntryV {
                    candidate: candidate@,
                    version: version@,
                    install_path: install_path@,
                    source: source,
                    checksum: opt_str_view(checksum),
                    timestamp: timestamp,
                })
                &&& final(self).is_installed(candidate@, version@)
                &&& final(self).entry_of(candidate@, version@) == Some(r->Ok_0@)
                &&& final(self).entries_v() == old(self).entries_v().push(r->Ok_0@)
                &&& forall|c2: Seq<char>, v2: Seq<char>|
                    !(c2 == candidate@ && v2 == version@) ==> #[trigger] final(self).entry_of(
                        c2,
                        v2,
                    ) == old(self).entry_of(c2, v2)
            },
            final(self).globals@ == old(self).globals@,
            final(self).overrides@ == old(self).overrides@,
    {
        if self.find_entry(&candidate, &version).is_some() {
            return Err(ErrorKind::AlreadyInstalling);
        }
        proof {
            lemma_assoc_none_iff(self.entries_assoc(), (candidate@, version@));
        }
        let record = InstalledVersion {
            candidate,
            version,
            install_path,
            source,
            checksum,
            timestamp,
        };
        let returned = record.clone();
        let ghost pre = *self;
        self.entries.push(record);
        proof {
            let key = (returned.candidate@, returned.version@);
            let p = (key, returned@);
            assert(self.entries_assoc() =~= pre.entries_assoc().push(p));
            assert(self.entries_v() =~= pre.entries_v().push(returned@));
            assert forall|j: int| 0 <= j < pre.entries_assoc().len() implies pre.entries_assoc()[j].0
                != key by {
                assert(pre.entries_assoc()[j].0 == (
                    pre.entries@[j].candidate@,
                    pre.entries@[j].version@,
                ));
            }
            lemma_assoc_unique_push(pre.entries_assoc(), p);
            lemma_assoc_push(pre.entries_assoc(), p, key);
            assert forall|c2: Seq<char>, v2: Seq<char>| !(c2 == key.0 && v2 == key.1)
                implies #[trigger] self.entry_of(c2, v2) == pre.entry_of(c2, v2) by {
                lemma_assoc_push(pre.entries_assoc(), p, (c2, v2));
            }
            assert forall|i: int| 0 <= i < self.globals@.len() implies self.is_installed(
                #[trigger] self.globals@[i].candidate@,
                self.globals@[i].version@,
            ) by {
                lemma_assoc_push(
                    pre.entries_assoc(),
                    p,
                    (self.globals@[i].candidate@, self.globals@[i].version@),
                );
            }
        }
        Ok(returned)
    }

    /// Removes an installed pair. The pair that is the candidate's
    /// global default is protected: removal fails with `IsCurrent`
    /// unless forced, and a forced removal clears the global default,
    /// leaving the candidate unconfigured. Session overrides are left
    /// in place; a dangling one is ignored by resolution from then on.
    pub fn unregister(&mut self, c: &String, v: &String, force: bool) -> (r: Result<(), ErrorKind>)
        requires
            old(self).wf(),
        ensures
            final(self).wf(),
            !old(self).is_installed(c@, v@) ==> r == Err::<(), ErrorKind>(ErrorKind::NotFound)
                && *final(self) == *old(self),
            old(self).is_installed(c@, v@) && old(self).global_of(c@) == Some(v@) && !force ==> r
                == Err::<(), ErrorKind>(ErrorKind::IsCurrent) && *final(self) == *old(self),
            old(self).is_installed(c@, v@) && (old(self).global_of(c@) != Some(v@) || force) ==> {
                &&& r is Ok
                &&& final(self).entry_of(c@, v@) is None
                &&& forall|c2: Seq<char>, v2: Seq<char>|
                    !(c2 == c@ && v2 == v@) ==> #[trigger] final(self).entry_of(c2, v2)
                        == old(self).entry_of(c2, v2)
                &&& final(self).global_of(c@) == (if old(self).global_of(c@) == Some(v@) {
                    None::<Seq<char>>
                } else {
                    old(self).global_of(c@)
                })
                &&& forall|c2: Seq<char>|
                    c2 != c@ ==> #[trigger] final(self).global_of(c2) == old(self).global_of(c2)
                &&& final(self).overrides@ == old(self).overrides@
            },
    {
        let found = self.find_entry(c, v);
        let i = match found {
            None => {
                return Err(ErrorKind::NotFound);
            },
            Some(i) => i,
        };
        let gi = self.find_global(c);
        let global_is_v = match gi {
            Some(g) => string_eq(&self.globals[g].version, v),
            None => false,
        };
        if global_is_v && !force {
            return Err(ErrorKind::IsCurrent);
        }
        let ghost pre = *self;
        self.entries.remove(i);
        proof {
            assert(self.entries_assoc() =~= pre.entries_assoc().remove(i as int));
            lemma_assoc_unique_remove(pre.entries_assoc(), i as int);
            lemma_assoc_remove(pre.entries_assoc(), i as int, (c@, v@));
            assert(pre.entries_assoc()[i as int].0 == (c@, v@));
        }
        if global_is_v {
            let g = match gi {
                Some(g) => g,
                None => {
                    return Err(ErrorKind::NotFound);
                },
            };
            let ghost mid = *self;
            self.globals.remove(g);
            proof {
                assert(self.globals_assoc() =~= mid.globals_assoc().remove(g as int));
                lemma_assoc_unique_remove(mid.globals_assoc(), g as int);
                lemma_assoc_remove(mid.globals_assoc(), g as int, c@);
                assert(mid.globals_assoc()[g as int].0 == c@);
                assert forall|c2: Seq<char>| c2 != c@ implies #[trigger] self.global_of(c2)
                    == mid.global_of(c2) by {
                    lemma_assoc_remove(mid.globals_assoc(), g as int, c2);
                }
                assert forall|k: int| 0 <= k < self.globals@.len() implies self.is_installed(
                    #[trigger] self.globals@[k].candidate@,
                    self.globals@[k].version@,
                ) by {
                    let k0: int = if k < g as int {
                        k
                    } else {
                        k + 1
                    };
                    assert(self.globals@[k] == pre.globals@[k0]);
                    let c2 = pre.globals@[k0].candidate@;
                    let v2 = pre.globals@[k0].version@;
                    assert(pre.globals_assoc()[k0].0 == c2);
                    assert(pre.globals_assoc()[g as int].0 == c@);
                    assert(c2 != c@);
                    lemma_assoc_remove(pre.entries_assoc(), i as int, (c2, v2));
                }
            }
        } else {
            proof {
                assert forall|k: int| 0 <= k < self.globals@.len() implies self.is_installed(
                    #[trigger] self.globals@[k].candidate@,
                    self.globals@[k].version@,
                ) by {
                    assert(self.globals@[k] == pre.globals@[k]);
                    let c2 = pre.globals@[k].candidate@;
                    let v2 = pre.globals@[k].version@;
                    if c2 == c@ && v2 == v@ {
                        // Then the candidate's global default would be v,
                        // which this branch has ruled out.
                        assert(pre.globals_assoc()[k].0 == c2);
                        lemma_assoc_unique_match(pre.globals_assoc(), c@, k);
                        assert(false);
                    }
                    lemma_assoc_remove(pre.entries_assoc(), i as int, (c2, v2));
                }
            }
        }
        proof {
            assert(self.entries_assoc() =~= pre.entries_assoc().remove(i as int));
            assert forall|c2: Seq<char>, v2: Seq<char>| !(c2 == c@ && v2 == v@)
                implies #[trigger] self.entry_of(c2, v2) == pre.entry_of(c2, v2) by {
                lemma_assoc_remove(pre.entries_assoc(), i as int, (c2, v2));
            }
        }
        Ok(())
    }

    /// Makes an installed version the candidate's persisted global
    /// default, used by every new session that has no override.
    pub fn set_global_default(&mut self, c: &String, v: &String) -> (r: Result<(), ErrorKind>)
        requires
            old(self).wf(),
        ensures
            final(self).wf(),
            !old(self).is_installed(c@, v@) ==> r == Err::<(), ErrorKind>(ErrorKind::NotInstalled)
                && *final(self) == *old(self),
            old(self).is_installed(c@, v@) ==> {
                &&& r is Ok
                &&& final(self).global_of(c@) == Some(v@)
                &&& forall|c2: Seq<char>|
                    c2 != c@ ==> #[trigger] final(self).global_of(c2) == old(self).global_of(c2)
                &&& final(self).entries@ == old(self).entries@
                &&& final(self).overrides@ == old(self).overrides@
            },
    {
        if self.find_entry(c, v).is_none() {
            return Err(ErrorKind::NotInstalled);
        }
        let ghost pre = *self;
        let gi = self.find_global(c);
        match gi {
            Some(g) => {
                self.globals.remove(g);
                proof {
                    assert(self.globals_assoc() =~= pre.globals_assoc().remove(g as int));
                    lemma_assoc_unique_remove(pre.globals_assoc(), g as int);
                    assert(pre.globals_assoc()[g as int].0 == c@);
                    assert forall|j: int|
                        0 <= j < self.globals_assoc().len() implies #[trigger] self.globals_assoc()[j].0
                        != c@ by {
                        let j0: int = if j < g as int {
                            j
                        } else {
                            j + 1
                        };
                        assert(self.globals_assoc()[j] == pre.globals_assoc()[j0]);
                    }
                }
            },
            None => {
                proof {
                    lemma_assoc_none_iff(pre.globals_assoc(), c@);
                }
            },
        }
        let gd = GlobalDefault { candidate: c.clone(), version: v.clone() };
        let ghost mid = *self;
        self.globals.push(gd);
        proof {
            let p = (c@, v@);
            assert(self.globals_assoc() =~= mid.globals_assoc().push(p));
            assert forall|j: int| 0 <= j < mid.globals_assoc().len() implies mid.globals_assoc()[j].0
                != c@ by {
                assert(mid.globals_assoc()[j].0 == mid.globals@[j].candidate@);
            }
            lemma_assoc_unique_push(mid.globals_assoc(), p);
            lemma_assoc_none_iff(mid.globals_assoc(), c@);
            lemma_assoc_push(mid.globals_assoc(), p, c@);
            assert forall|c2: Seq<char>| c2 != c@ implies #[trigger] self.global_of(c2)
                == pre.global_of(c2) by {
                lemma_assoc_push(mid.globals_assoc(), p, c2);
                match gi {
                    Some(g) => {
                        lemma_assoc_remove(pre.globals_assoc(), g as int, c2);
                    },
                    None => {},
                }
            }
            assert forall|k: int| 0 <= k < self.globals@.len() implies self.is_installed(
                #[trigger] self.globals@[k].candidate@,
                self.globals@[k].version@,
            ) by {
                if k < mid.globals@.len() {
                    assert(self.globals@[k] == mid.globals@[k]);
                    match gi {
                        Some(g) => {
                            let k0: int = if k < g as int {
                                k
                            } else {
                                k + 1
                            };
                            assert(mid.globals@[k] == pre.globals@[k0]);
                        },
                        None => {},
                    }
                } else {
                    assert(self.globals@[k].candidate@ == c@ && self.globals@[k].version@ == v@);
                }
            }
        }
        Ok(())
    }

    /// Pins an installed version for one shell session. Only that
    /// session's resolution is affected; the global default and every
    /// other session keep their state.
    pub fn set_session_override(&mut self, session: u64, c: &String, v: &String) -> (r: Result<
        (),
        ErrorKind,
    >)
        requires
            old(self).wf(),
        ensures
            final(self).wf(),
            !old(self).is_installed(c@, v@) ==> r == Err::<(), ErrorKind>(ErrorKind::NotInstalled)
                && *final(self) == *old(self),
            old(self).is_installed(c@, v@) ==> {
                &&& r is Ok
                &&& final(self).override_of(session, c@) == Some(v@)
                &&& forall|s2: u64, c2: Seq<char>|
                    !(s2 == session && c2 == c@) ==> #[trigger] final(self).override_of(s2, c2)
                        == old(self).override_of(s2, c2)
                &&& final(self).entries@ == old(self).entries@
                &&& final(self).globals@ == old(self).globals@
            },
    {
        if self.find_entry(c, v).is_none() {
            return Err(ErrorKind::NotInstalled);
        }
        let ghost pre = *self;
        let oi = self.find_override(session, c);
        match oi {
            Some(o) => {
                self.overrides.remove(o);
                proof {
                    assert(self.overrides_assoc() =~= pre.overrides_assoc().remove(o as int));
                    lemma_assoc_unique_remove(pre.overrides_assoc(), o as int);
                    assert(pre.overrides_assoc()[o as int].0 == (session, c@));
                    assert forall|j: int|
                        0 <= j < self.overrides_assoc().len() implies #[trigger] self.overrides_assoc()[j].0
                        != (session, c@) by {
                        let j0: int = if j < o as int {
                            j
                        } else {
                            j + 1
                        };
                        assert(self.overrides_assoc()[j] == pre.overrides_assoc()[j0]);
                    }
                }
            },
            None => {
                proof {
                    lemma_assoc_none_iff(pre.overrides_assoc(), (session, c@));
                }
            },
        }
        let ov = SessionOverride { session, candidate: c.clone(), version: v.clone() };
        let ghost mid = *self;
        self.overrides.push(ov);
        proof {
            let p = ((session, c@), v@);
            assert(self.overrides_assoc() =~= mid.overrides_assoc().push(p));
            assert forall|j: int|
                0 <= j < mid.overrides_assoc().len() implies #[trigger] mid.overrides_assoc()[j].0
                != (session, c@) by {
                assert(mid.overrides_assoc()[j] == (
                    (mid.overrides@[j].session, mid.overrides@[j].candidate@),
                    mid.overrides@[j].version@,
                ));
            }
            lemma_assoc_unique_push(mid.overrides_assoc(), p);
            lemma_assoc_none_iff(mid.overrides_assoc(), (session, c@));
            lemma_assoc_push(mid.overrides_assoc(), p, (session, c@));
            assert forall|s2: u64, c2: Seq<char>| !(s2 == session && c2 == c@)
                implies #[trigger] self.override_of(s2, c2) == pre.override_of(s2, c2) by {
                lemma_assoc_push(mid.overrides_assoc(), p, (s2, c2));
                match oi {
                    Some(o) => {
                        lemma_assoc_remove(pre.overrides_assoc(), o as int, (s2, c2));
                    },
                    None => {},
                }
            }
        }
        Ok(())
    }

    /// Resolves the version a session is currently using for a
    /// candidate: the session's own override while that version is
    /// still installed, else the persisted global default. Fails with
    /// `NoneInstalled` when neither applies.
    pub fn get_current(&self, c: &String, session: u64) -> (r: Result<String, ErrorKind>)
        requires
            self.wf(),
        ensures
            match self.current_of(session, c@) {
                Some(ver) => r is Ok && r->Ok_0@ == ver,
                None => r == Err::<String, ErrorKind>(ErrorKind::NoneInstalled),
            },
    {
        match self.find_override(session, c) {
            Some(o) => {
                let w = self.overrides[o].version.clone();
                if self.find_entry(c, &w).is_some() {
                    return Ok(w);
                }
            },
            None => {},
        }
        match self.find_global(c) {
            Some(g) => Ok(self.globals[g].version.clone()),
            None => Err(ErrorKind::NoneInstalled),
        }
    }

    /// The record registered for (c, v), if any.
    pub fn get_installed(&self, c: &String, v: &String) -> (r: Option<InstalledVersion>)
        ensures
            match self.entry_of(c@, v@) {
                Some(e) => r is Some && r->0@ == e,
                None => r is None,
            },
    {
        match self.find_entry(c, v) {
            Some(i) => Some(self.entries[i].clone()),
            None => None,
        }
    }

    /// All installed records, or those of one candidate. For one
    /// candidate the result holds exactly the installed records whose
    /// candidate matches: nothing else, and none of them missing.
    pub fn list(&self, candidate: Option<&String>) -> (r: Vec<InstalledVersion>)
        requires
            self.wf(),
        ensures
            match candidate {
                Some(c) => {
                    &&& forall|k: int|
                        0 <= k < r@.len() ==> (#[trigger] r@[k]@).candidate == c@ && self.entry_of(
                            c@,
                            r@[k]@.version,
                        ) == Some(r@[k]@)
                    &&& forall|j: int|
                        0 <= j < self.entries@.len() && (#[trigger] self.entries@[j]@).candidate
                            == c@ ==> exists|k: int| 0 <= k < r@.len() && r@[k]@ == self.entries@[j]@
                },
                None => r@.map_values(|e: InstalledVersion| e@) == self.entries_v(),
            },
    {
        let mut out: Vec<InstalledVersion> = Vec::new();
        let mut i: usize = 0;
        proof {
            assert(out@.map_values(|e: InstalledVersion| e@) =~= Seq::<EntryV>::empty());
            assert(self.entries_v().take(0) =~= Seq::<EntryV>::empty());
        }
        while i < self.entries.len()
            invariant
                self.wf(),
                i <= self.entries@.len(),
                match candidate {
                    Some(c) => {
                        &&& forall|k: int|
                            0 <= k < out@.len() ==> (#[trigger] out@[k]@).candidate == c@
                                && self.entry_of(c@, out@[k]@.version) == Some(out@[k]@)
                        &&& forall|j: int|
                            0 <= j < i && (#[trigger] self.entries@[j]@).candidate == c@
                                ==> exists|k: int|
                                0 <= k < out@.len() && out@[k]@ == self.entries@[j]@
                    },
                    None => out@.map_values(|e: InstalledVersion| e@) == self.entries_v().take(
                        i as int,
                    ),
                },
            decreases self.entries@.len() - i,
        {
            let ghost prefix = self.entries_v().take(i as int);
            let ghost out_pre = out@;
            let e = &self.entries[i];
            let keep = match candidate {
                Some(c) => string_eq(&e.candidate, c),
                None => true,
            };
            if keep {
                out.push(e.clone());
            }
            proof {
                match candidate {
                    Some(c) => {
                        if keep {
                            assert(self.entries_assoc()[i as int].0 == (e.candidate@, e.version@));
                            lemma_assoc_unique_match(
                                self.entries_assoc(),
                                (e.candidate@, e.version@),
                                i as int,
                            );
                            assert(out@ == out_pre.push(*e));
                            assert forall|j: int|
                                0 <= j < i + 1 && (#[trigger] self.entries@[j]@).candidate == c@
                                implies exists|k: int|
                                0 <= k < out@.len() && out@[k]@ == self.entries@[j]@ by {
                                if j < i {
                                    let k = choose|k: int|
                                        0 <= k < out_pre.len() && out_pre[k]@ == self.entries@[j]@;
                                    assert(out@[k]@ == self.entries@[j]@);
                                } else {
                                    assert(out@[out@.len() - 1]@ == self.entries@[j]@);
                                }
                            }
                        }
                    },
                    None => {
                        let next = self.entries_v().take(i + 1);
                        assert(out@.map_values(|x: InstalledVersion| x@) =~= out_pre.map_values(
                            |x: InstalledVersion| x@,
                        ).push(e@));
                        assert(next =~= prefix.push(e@));
                    },
                }
            }
            i += 1;
        }
        proof {
            assert(self.entries_v().take(self.entries@.len() as int) =~= self.entries_v());
        }
        out
    }
}

/// Every installed pair shows up in its candidate's listing: when
/// (c, v) is installed, some record of the registry carries exactly
/// that candidate and version, and `list` for that candidate is bound
/// by its contract to return it.
pub proof fn lemma_installed_is_listed(r: Registry, c: Seq<char>, v: Seq<char>)
    requires
        r.is_installed(c, v),
    ensures
        exists|i: int|
            0 <= i < r.entries@.len() && (#[trigger] r.entries@[i]@).candidate == c
                && r.entries@[i]@.version == v,
{
    lemma_assoc_some_index(r.entries_assoc(), (c, v));
    let i = choose|i: int|
        0 <= i < r.entries_assoc().len() && r.entries_assoc()[i].0 == (c, v) && Some(
            r.entries_assoc()[i].1,
        ) == assoc_lookup(r.entries_assoc(), (c, v));
    assert((r.entries@[i]@).candidate == c && r.entries@[i]@.version == v);
}

/// A well-formed registry holds at most one record per pair: any two
/// indices that carry the same candidate and version coincide. Hence,
/// however many concurrent installers raced, a pair ends up registered
/// once.
pub proof fn lemma_at_most_one_record(r: Registry, i: int, j: int)
    requires
        r.wf(),
        0 <= i < r.entries@.len(),
        0 <= j < r.entries@.len(),
        r.entries@[i].candidate@ == r.entries@[j].candidate@,
        r.entries@[i].version@ == r.entries@[j].version@,
    ensures
        i == j,
{
    assert(r.entries_assoc()[i].0 == (r.entries@[i].candidate@, r.entries@[i].version@));
    assert(r.entries_assoc()[j].0 == (r.entries@[j].candidate@, r.entries@[j].version@));
}

/// A candidate whose global default is cleared resolves to nothing for
/// any session whose override (if one lingers) no longer names an
/// installed version: `get_current` is owed `NoneInstalled` there.
pub proof fn lemma_unconfigured_resolves_none(r: Registry, session: u64, c: Seq<char>)
    requires
        r.global_of(c) is None,
        match r.override_of(session, c) {
            Some(w) => !r.is_installed(c, w),
            None => true,
        },
    ensures
        r.current_of(session, c) is None,
{
}

/// Reinstalling after removal yields a fresh record: registering a
/// pair that is absent makes the pair resolve to exactly the new
/// record, so its timestamp is the new one, not that of any record the
/// pair had before its removal.
pub proof fn lemma_reinstall_is_fresh(r: Registry, e: InstalledVersion, old_ts: u64)
    requires
        !r.is_installed(e.candidate@, e.version@),
        e.timestamp != old_ts,
    ensures
        ({
            let s = r.entries_assoc().push(((e.candidate@, e.version@), e@));
            &&& assoc_lookup(s, (e.candidate@, e.version@)) == Some(e@)
            &&& assoc_lookup(s, (e.candidate@, e.version@))->Some_0.timestamp != old_ts
        }),
{
    lemma_assoc_push(r.entries_assoc(), ((e.candidate@, e.version@), e@), (e.candidate@, e.version@));
}

} // verus!
