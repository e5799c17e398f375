//! The catalog store: a cached snapshot of which candidate/version
//! pairs are remotely installable, refreshed wholesale from a remote
//! index and served from the last-known-good cache when offline.
//!
//! The store itself never touches the network. Refreshing is split in
//! two: `refresh_plan` says whether the caller must fetch the remote
//! index at all (never when offline), and the fetched entries are
//! committed with `apply_refresh`, or the failure recorded with
//! `refresh_failed`, which absorbs a network error exactly when a
//! cached snapshot exists to fall back to.

use vstd::prelude::*;

use crate::assoc::assoc_lookup;
use crate::assoc::lemma_assoc_first_match;
use crate::assoc::lemma_assoc_none_iff;
use crate::registry::string_eq;
use crate::ErrorKind;

verus! {

/// One remotely installable candidate/version pair, with the URL the
/// archive is downloaded from and whether the publisher marks it as
/// the latest stable release of its candidate.
pub struct CatalogEntry {
    pub candidate: String,
    pub version: String,
    pub url: String,
    pub latest_stable: bool,
}

/// Mathematical image of a `CatalogEntry`.
#[verifier::ext_equal]
pub struct CatalogEntryV {
    pub candidate: Seq<char>,
    pub version: Seq<char>,
    pub url: Seq<char>,
    pub latest_stable: bool,
}

impl View for CatalogEntry {
    type V = CatalogEntryV;

    open spec fn view(&self) -> CatalogEntryV {
        CatalogEntryV {
            candidate: self.candidate@,
            version: self.version@,
            url: self.url@,
            latest_stable: self.latest_stable,
        }
    }
}

impl Clone for CatalogEntry {
    fn clone(&self) -> (r: Self)
        ensures
            r == *self,
    {
        CatalogEntry {
            candidate: self.candidate.clone(),
            version: self.version.clone(),
            url: self.url.clone(),
            latest_stable: self.latest_stable,
        }
    }
}

/// What a refresh requires of the caller.
#[derive(Clone, Copy, PartialEq, Eq, Structural, Debug)]
pub enum RefreshAction {
    /// Fetch the remote index and commit or fail the refresh.
    Fetch,
    /// Offline: the refresh is a no-op that succeeds on the cache.
    UseCache,
}

/// The cached catalog snapshot, the time it was fetched, and the
/// process-wide offline toggle.
pub struct CatalogStore {
    pub entries: Vec<CatalogEntry>,
    pub has_snapshot: bool,
    pub fetched_at: u64,
    pub offline: bool,
}

impl CatalogStore {
    pub open spec fn entries_v(self) -> Seq<CatalogEntryV> {
        self.entries@.map_values(|e: CatalogEntry| e@)
    }

    /// Association from (candidate, latest-stable flag) to version;
    /// the latest stable version of c is the value at (c, true).
    pub open spec fn latest_assoc(self) -> Seq<((Seq<char>, bool), Seq<char>)> {
        self.entries@.map_values(
            |e: CatalogEntry| ((e.candidate@, e.latest_stable), e.version@),
        )
    }

    /// Association from (candidate, version) to download URL.
    pub open spec fn url_assoc(self) -> Seq<((Seq<char>, Seq<char>), Seq<char>)> {
        self.entries@.map_values(|e: CatalogEntry| ((e.candidate@, e.version@), e.url@))
    }

    /// The latest stable version of a candidate in the snapshot.
    pub open spec fn latest_of(self, c: Seq<char>) -> Option<Seq<char>> {
        assoc_lookup(self.latest_assoc(), (c, true))
    }

    /// The download URL of a pair in the snapshot.
    pub open spec fn url_of(self, c: Seq<char>, v: Seq<char>) -> Option<Seq<char>> {
        assoc_lookup(self.url_assoc(), (c, v))
    }

    /// Whether any snapshot entry names the candidate.
    pub open spec fn spec_has_candidate(self, c: Seq<char>) -> bool {
        exists|i: int| 0 <= i < self.entries@.len() && (#[trigger] self.entries@[i]@).candidate == c
    }

    /// Without a cached snapshot there are no entries to serve.
    pub open spec fn wf(self) -> bool {
        !self.has_snapshot ==> self.entries@.len() == 0
    }

    /// An empty store: no snapshot yet, online.
    pub fn new() -> (r: CatalogStore)
        ensures
            r.wf(),
            r.entries@.len() == 0,
            !r.has_snapshot,
            !r.offline,
            r.fetched_at == 0,
    {
        CatalogStore { entries: Vec::new(), has_snapshot: false, fetched_at: 0, offline: false }
    }

    /// Turns the process-wide offline mode on or off. Nothing else of
    /// the store changes.
    pub fn set_offline(&mut self, on: bool)
        requires
            old(self).wf(),
        ensures
            final(self).wf(),
            final(self).offline == on,
            final(self).entries@ == old(self).entries@,
            final(self).has_snapshot == old(self).has_snapshot,
            final(self).fetched_at == old(self).fetched_at,
    {
        self.offline = on;
    }

    /// What a refresh must do: fetch the remote index exactly when the
    /// store is not offline. Offline, a refresh succeeds as a no-op on
    /// the cache and must not attempt the network.
    pub fn refresh_plan(&self) -> (r: RefreshAction)
        ensures
            r == RefreshAction::Fetch <==> !self.offline,
    {
        if self.offline {
            RefreshAction::UseCache
        } else {
            RefreshAction::Fetch
        }
    }

    /// Commits a fetched remote index: the snapshot is replaced
    /// wholesale, never merged, so no stale entry survives a refresh.
    pub fn apply_refresh(&mut self, entries: Vec<CatalogEntry>, now: u64)
        ensures
            final(self).wf(),
            final(self).entries@ == entries@,
            final(self).has_snapshot,
            final(self).fetched_at == now,
            final(self).offline == old(self).offline,
    {
        self.entries = entries;
        self.has_snapshot = true;
        self.fetched_at = now;
    }

    /// Records that fetching the remote index failed. The failure is
    /// absorbed exactly when a cached snapshot exists to serve from;
    /// with no cache it surfaces as `NetworkUnavailable`.
    pub fn refresh_failed(&self) -> (r: Result<(), ErrorKind>)
        ensures
            self.has_snapshot ==> r is Ok,
            !self.has_snapshot ==> r == Err::<(), ErrorKind>(ErrorKind::NetworkUnavailable),
    {
        if self.has_snapshot {
            Ok(())
        } else {
            Err(ErrorKind::NetworkUnavailable)
        }
    }

    /// Whether the snapshot knows the candidate at all.
    pub fn has_candidate(&self, c: &String) -> (r: bool)
        ensures
            r == self.spec_has_candidate(c@),
    {
        let mut i: usize = 0;
        while i < self.entries.len()
            invariant
                i <= self.entries@.len(),
                forall|j: int| 0 <= j < i ==> (#[trigger] self.entries@[j]@).candidate != c@,
            decreases self.entries@.len() - i,
        {
            proof {
                assert((self.entries@[i as int]@).candidate == self.entries@[i as int].candidate@);
            }
            if string_eq(&self.entries[i].candidate, c) {
                return true;
            }
            i += 1;
        }
        false
    }

    /// The catalog entries, or those of one candidate: exactly the
    /// snapshot records whose candidate matches. With no cached
    /// snapshot the store cannot serve and fails with `NotFound`.
    pub fn list(&self, candidate: Option<&String>) -> (r: Result<Vec<CatalogEntry>, ErrorKind>)
        ensures
            !self.has_snapshot ==> r == Err::<Vec<CatalogEntry>, ErrorKind>(ErrorKind::NotFound),
            self.has_snapshot ==> r is Ok && (match candidate {
                Some(c) => listing_sound(self.entries@, r->Ok_0@, c@) && listing_complete(
                    self.entries@,
                    r->Ok_0@,
                    c@,
                    self.entries@.len() as int,
                ),
                None => r->Ok_0@.map_values(|e: CatalogEntry| e@) == self.entries_v(),
            }),
    {
        if !self.has_snapshot {
            return Err(ErrorKind::NotFound);
        }
        let mut out: Vec<CatalogEntry> = Vec::new();
        let mut i: usize = 0;
        proof {
            assert(out@.map_values(|e: CatalogEntry| e@) =~= Seq::<CatalogEntryV>::empty());
            assert(self.entries_v().take(0) =~= Seq::<CatalogEntryV>::empty());
        }
        while i < self.entries.len()
            invariant
                i <= self.entries@.len(),
                match candidate {
                    Some(c) => listing_sound(self.entries@, out@, c@) && listing_complete(
                        self.entries@,
                        out@,
                        c@,
                        i as int,
                    ),
                    None => out@.map_values(|e: CatalogEntry| e@) == self.entries_v().take(i as int),
                },
            decreases self.entries@.len() - i,
        {
            let ghost prefix = self.entries_v().take(i as int);
            let ghost out_pre = out@;
            let e = &self.entries[i];
            let keep = match candidate {
                Some(c) => string_eq(&e.candidate, c),
                None => true,
            };
            if keep {
                out.push(e.clone());
            }
            proof {
                match candidate {
                    Some(c) => {
                        assert((self.entries@[i as int]@).candidate == self.entries@[i as int].candidate@);
                        if keep {
                            assert(out@ == out_pre.push(*e));
                            assert forall|k: int|
                                0 <= k < out@.len() implies (#[trigger] out@[k]@).candidate == c@
                                && exists|j: int|
                                0 <= j < self.entries@.len() && self.entries@[j]@ == out@[k]@ by {
                                if k < out_pre.len() {
                                    assert(out@[k] == out_pre[k]);
                                    let j = choose|j: int|
                                        0 <= j < self.entries@.len() && self.entries@[j]@
                                            == out_pre[k]@;
                                    assert(self.entries@[j]@ == out@[k]@);
                                } else {
                                    assert(out@[k] == *e);
                                    assert(self.entries@[i as int]@ == out@[k]@);
                                }
                            }
                            assert(listing_sound(self.entries@, out@, c@));
                            assert forall|j: int|
                                0 <= j < i + 1 && (#[trigger] self.entries@[j]@).candidate
                                == c@ implies exists|k: int|
                                0 <= k < out@.len() && out@[k]@ == self.entries@[j]@ by {
                                if j < i {
                                    let k = choose|k: int|
                                        0 <= k < out_pre.len() && out_pre[k]@ == self.entries@[j]@;
                                    assert(out@[k]@ == self.entries@[j]@);
                                } else {
                                    assert(out@[out@.len() - 1]@ == self.entries@[j]@);
                                }
                            }
                            assert(listing_complete(self.entries@, out@, c@, i + 1));
                        }
                    },
                    None => {
                        let next = self.entries_v().take(i + 1);
                        assert(out@.map_values(|x: CatalogEntry| x@) =~= out_pre.map_values(
                            |x: CatalogEntry| x@,
                        ).push(e@));
                        assert(next =~= prefix.push(e@));
                    },
                }
            }
            i += 1;
        }
        proof {
            assert(self.entries_v().take(self.entries@.len() as int) =~= self.entries_v());
        }
        Ok(out)
    }

    /// The latest stable version of a candidate, served from the
    /// snapshot. Fails with `NotFound` when no snapshot exists, the
    /// candidate is unknown, or no entry of it is marked stable.
    pub fn latest_stable(&self, c: &String) -> (r: Result<String, ErrorKind>)
        ensures
            match self.latest_of(c@) {
                Some(v) => r is Ok && r->Ok_0@ == v,
                None => r == Err::<String, ErrorKind>(ErrorKind::NotFound),
            },
    {
        let mut i: usize = 0;
        while i < self.entries.len()
            invariant
                i <= self.entries@.len(),
                forall|j: int|
                    0 <= j < i ==> !((#[trigger] self.entries@[j]@).candidate == c@
                        && self.entries@[j]@.latest_stable),
            decreases self.entries@.len() - i,
        {
            let e = &self.entries[i];
            if e.latest_stable && string_eq(&e.candidate, c) {
                proof {
                    assert forall|j: int| 0 <= j < i implies self.latest_assoc()[j].0 != (
                    c@,
                    true,
                    ) by {
                        assert(self.latest_assoc()[j].0 == (
                            self.entries@[j].candidate@,
                            self.entries@[j].latest_stable,
                        ));
                        assert((self.entries@[j]@).candidate == self.entries@[j].candidate@);
                        assert((self.entries@[j]@).latest_stable == self.entries@[j].latest_stable);
                    }
                    assert(self.latest_assoc()[i as int].0 == (c@, true));
                    lemma_assoc_first_match(self.latest_assoc(), (c@, true), i as int);
                }
                return Ok(e.version.clone());
            }
            i += 1;
        }
        proof {
            assert forall|j: int| 0 <= j < self.latest_assoc().len() implies self.latest_assoc()[j].0
                != (c@, true) by {
                assert(self.latest_assoc()[j].0 == (
                    self.entries@[j].candidate@,
                    self.entries@[j].latest_stable,
                ));
                assert((self.entries@[j]@).candidate == self.entries@[j].candidate@);
                assert((self.entries@[j]@).latest_stable == self.entries@[j].latest_stable);
            }
            lemma_assoc_none_iff(self.latest_assoc(), (c@, true));
        }
        Err(ErrorKind::NotFound)
    }

    /// The download URL the snapshot holds for a pair.
    pub fn url_for(&self, c: &String, v: &String) -> (r: Option<String>)
        ensures
            match self.url_of(c@, v@) {
                Some(u) => r is Some && r->0@ == u,
                None => r is None,
            },
    {
        let mut i: usize = 0;
        while i < self.entries.len()
            invariant
                i <= self.entries@.len(),
                forall|j: int|
                    0 <= j < i ==> !((#[trigger] self.entries@[j]@).candidate == c@
                        && self.entries@[j]@.version == v@),
            decreases self.entries@.len() - i,
        {
            let e = &self.entries[i];
            if string_eq(&e.candidate, c) && string_eq(&e.version, v) {
                proof {
                    assert forall|j: int| 0 <= j < i implies self.url_assoc()[j].0 != (c@, v@) by {
                        assert(self.url_assoc()[j].0 == (
                            self.entries@[j].candidate@,
                            self.entries@[j].version@,
                        ));
                        assert((self.entries@[j]@).candidate == self.entries@[j].candidate@);
                        assert((self.entries@[j]@).version == self.entries@[j].version@);
                    }
                    assert(self.url_assoc()[i as int].0 == (c@, v@));
                    lemma_assoc_first_match(self.url_assoc(), (c@, v@), i as int);
                }
                return Some(e.url.clone());
            }
            i += 1;
        }
        proof {
            assert forall|j: int| 0 <= j < self.url_assoc().len() implies self.url_assoc()[j].0 != (
            c@,
            v@,
            ) by {
                assert(self.url_assoc()[j].0 == (
                    self.entries@[j].candidate@,
                    self.entries@[j].version@,
                ));
                assert((self.entries@[j]@).candidate == self.entries@[j].candidate@);
                assert((self.entries@[j]@).version == self.entries@[j].version@);
            }
            lemma_assoc_none_iff(self.url_assoc(), (c@, v@));
        }
        None
    }
}

/// Every record a candidate's listing returns is a snapshot record of
/// that candidate.
pub open spec fn listing_sound(entries: Seq<CatalogEntry>, out: Seq<CatalogEntry>, c: Seq<char>) -> bool {
    forall|k: int|
        0 <= k < out.len() ==> (#[trigger] out[k]@).candidate == c && exists|j: int|
            0 <= j < entries.len() && entries[j]@ == out[k]@
}

/// Every snapshot record of the candidate among the first `upto` is in
/// the listing.
pub open spec fn listing_complete(
    entries: Seq<CatalogEntry>,
    out: Seq<CatalogEntry>,
    c: Seq<char>,
    upto: int,
) -> bool {
    forall|j: int|
        0 <= j < upto && (#[trigger] entries[j]@).candidate == c ==> exists|k: int|
            0 <= k < out.len() && out[k]@ == entries[j]@
}

/// Offline with an empty cache, the store is owed `NotFound` from both
/// `list` and `latest_stable`, and its refresh plan never asks for the
/// network.
pub proof fn lemma_offline_empty_cache(s: CatalogStore, c: Seq<char>)
    requires
        s.wf(),
        s.offline,
        !s.has_snapshot,
    ensures
        s.refresh_plan_spec() == RefreshAction::UseCache,
        s.latest_of(c) is None,
{
    assert(s.entries@.len() == 0);
    assert(s.latest_assoc().len() == 0);
}

impl CatalogStore {
    /// What `refresh_plan` returns, as a function of the state.
    pub open spec fn refresh_plan_spec(self) -> RefreshAction {
        if self.offline {
            RefreshAction::UseCache
        } else {
            RefreshAction::Fetch
        }
    }
}

} // verus!
