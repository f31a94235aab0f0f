//! The registry of providers: every provider that the store yielded, enabled
//! or disabled, each with its instance pool.
//!
//! A registry is a plain value. A host that serves many callers keeps the
//! current registry behind a shared pointer and replaces it as a whole, so
//! that no reader sees a half-made change.

use crate::metadata::{ProviderMetadata, ProviderMetadataView};
use crate::pool::Pool;
use crate::store::{header_verdict, validate_header, StoreEntry, StoreError};
use crate::version::{check, verdict, Compatibility, Incompatibility, InterfaceVersion};
use vstd::prelude::*;

verus! {

/// Whether calls may be routed to a provider.
#[derive(Clone, Copy, Debug, PartialEq, Eq, Structural)]
pub enum Status {
    Enabled,
    /// Present but not callable; the reason is kept for diagnostics.
    Disabled(Incompatibility),
}

/// The status that the compatibility rule gives a provider.
pub open spec fn status_for(declared: InterfaceVersion, host: InterfaceVersion) -> Status {
    match verdict(declared, host) {
        Compatibility::Compatible => Status::Enabled,
        Compatibility::Incompatible(reason) => Status::Disabled(reason),
    }
}

/// A provider in the registry: its module binary, its metadata, the verdict
/// of the compatibility check and its instance pool.
#[derive(Debug, PartialEq, Eq)]
pub struct LoadedProvider {
    pub metadata: ProviderMetadata,
    pub status: Status,
    pub binary: Vec<u8>,
    pub pool: Pool,
}

/// What became of a provider offered to the registry.
#[derive(Clone, Copy, Debug, PartialEq, Eq, Structural)]
pub enum LoadOutcome {
    /// Recorded and callable.
    Enabled,
    /// Recorded, but disabled for the reason given.
    Disabled(Incompatibility),
    /// Refused: the registry already holds a provider with this id.
    DuplicateId,
    /// Refused: a pool needs at least one instance slot.
    NoCapacity,
}

/// The registry of one host.
#[derive(Debug, PartialEq, Eq)]
pub struct Registry {
    /// Newest interface version that the host supports.
    pub host: InterfaceVersion,
    /// The providers in the order in which they were loaded.
    pub providers: Vec<LoadedProvider>,
}

/// The metadata of the enabled providers of `s`, in order.
pub open spec fn listing(s: Seq<LoadedProvider>) -> Seq<ProviderMetadataView>
    decreases s.len(),
{
    if s.len() == 0 {
        Seq::empty()
    } else if s.last().status is Enabled {
        listing(s.drop_last()).push(s.last().metadata@)
    } else {
        listing(s.drop_last())
    }
}

/// The provider at position `i` of `s` has the identifier `id`.
pub open spec fn id_at(s: Seq<LoadedProvider>, id: i64, i: int) -> bool {
    0 <= i < s.len() && s[i].metadata.id == id
}

/// No two providers of `s` share an identifier.
pub open spec fn distinct_ids(s: Seq<LoadedProvider>) -> bool {
    forall|i: int, j: int|
        0 <= i < s.len() && 0 <= j < s.len() && i != j ==> (#[trigger] s[i]).metadata.id != (
        #[trigger] s[j]).metadata.id
}

impl Registry {
    /// Identifiers are unique, every status is the verdict of the
    /// compatibility rule against this host, and every pool is well formed.
    pub open spec fn wf(&self) -> bool {
        &&& distinct_ids(self.providers@)
        &&& forall|i: int|
            0 <= i < self.providers@.len() ==> (#[trigger] self.providers@[i]).status
                == status_for(self.providers@[i].metadata.interface_version, self.host)
        &&& forall|i: int|
            0 <= i < self.providers@.len() ==> (#[trigger] self.providers@[i]).pool.wf()
    }

    /// The registry holds a provider with this identifier, enabled or not.
    pub open spec fn knows(&self, id: i64) -> bool {
        exists|i: int| id_at(self.providers@, id, i)
    }

    /// The registry holds an enabled provider with this identifier.
    pub open spec fn serves(&self, id: i64) -> bool {
        exists|i: int| id_at(self.providers@, id, i) && self.providers@[i].status is Enabled
    }

    /// An empty registry for a host that supports interface versions up to
    /// `host`.
    pub fn new(host: InterfaceVersion) -> (r: Registry)
        ensures
            r.wf(),
            r.host == host,
            r.providers@.len() == 0,
    {
        Registry { host, providers: Vec::new() }
    }

    /// Tells whether the registry is well formed. A registry that was made
    /// by [`Registry::new`] or [`Registry::populate`] and changed only
    /// through its methods always is.
    pub fn check(&self) -> (ok: bool)
        ensures
            ok == self.wf(),
    {
        let mut i: usize = 0;
        while i < self.providers.len()
            invariant
                i <= self.providers@.len(),
                forall|a: int, b: int|
                    0 <= a < i && 0 <= b < a ==> (#[trigger] self.providers@[a]).metadata.id != (
                    #[trigger] self.providers@[b]).metadata.id,
                forall|a: int|
                    0 <= a < i ==> (#[trigger] self.providers@[a]).status == status_for(
                        self.providers@[a].metadata.interface_version,
                        self.host,
                    ),
                forall|a: int| 0 <= a < i ==> (#[trigger] self.providers@[a]).pool.wf(),
            decreases self.providers@.len() - i,
        {
            let expected = match check(self.providers[i].metadata.interface_version, self.host) {
                Compatibility::Compatible => Status::Enabled,
                Compatibility::Incompatible(reason) => Status::Disabled(reason),
            };
            if self.providers[i].status != expected {
                return false;
            }
            if !self.providers[i].pool.check() {
                return false;
            }
            let mut j: usize = 0;
            while j < i
                invariant
                    j <= i < self.providers@.len(),
                    forall|b: int|
                        0 <= b < j ==> self.providers@[i as int].metadata.id != (
                        #[trigger] self.providers@[b]).metadata.id,
                decreases i - j,
            {
                if self.providers[j].metadata.id == self.providers[i].metadata.id {
                    return false;
                }
                j += 1;
            }
            i += 1;
        }
        proof {
            assert forall|a: int, b: int|
                0 <= a < self.providers@.len() && 0 <= b < self.providers@.len() && a
                    != b implies (#[trigger] self.providers@[a]).metadata.id != (
            #[trigger] self.providers@[b]).metadata.id by {
                if b < a {
                } else {
                    assert(self.providers@[b].metadata.id != self.providers@[a].metadata.id);
                }
            }
        }
        true
    }

    /// First position of a provider with this identifier, whatever its
    /// status.
    pub fn find(&self, id: i64) -> (r: Option<usize>)
        ensures
            match r {
                Some(i) => id_at(self.providers@, id, i as int) && forall|j: int|
                    0 <= j < i ==> !id_at(self.providers@, id, j),
                None => !self.knows(id),
            },
    {
        let mut i: usize = 0;
        while i < self.providers.len()
            invariant
                i <= self.providers@.len(),
                forall|j: int| 0 <= j < i ==> !id_at(self.providers@, id, j),
            decreases self.providers@.len() - i,
        {
            if self.providers[i].metadata.id == id {
                return Some(i);
            }
            i += 1;
        }
        None
    }

    /// Position of the enabled provider with this identifier. There is none
    /// when the identifier is unknown or its provider is disabled.
    pub fn lookup(&self, id: i64) -> (r: Option<usize>)
        requires
            self.wf(),
        ensures
            r is Some <==> self.serves(id),
            r matches Some(i) ==> id_at(self.providers@, id, i as int)
                && self.providers@[i as int].status is Enabled,
    {
        match self.find(id) {
            Some(i) => {
                match self.providers[i].status {
                    Status::Enabled => Some(i),
                    Status::Disabled(_) => {
                        assert forall|j: int| id_at(self.providers@, id, j) implies !(
                        self.providers@[j].status is Enabled) by {
                            assert(j == i);
                        }
                        None
                    },
                }
            },
            None => None,
        }
    }

    /// Offers a provider to the registry.
    ///
    /// A provider with a new identifier is always recorded: enabled when its
    /// interface version is compatible with the host, disabled with the
    /// reason otherwise. Its pool starts with `capacity` vacant slots. An
    /// identifier that is already taken, or a capacity of zero, leaves the
    /// registry as it was.
    pub fn load(&mut self, metadata: ProviderMetadata, binary: Vec<u8>, capacity: usize) -> (r:
        LoadOutcome)
        requires
            old(self).wf(),
        ensures
            final(self).wf(),
            final(self).host == old(self).host,
            r == (if old(self).knows(metadata.id) {
                LoadOutcome::DuplicateId
            } else if capacity == 0 {
                LoadOutcome::NoCapacity
            } else {
                match verdict(metadata.interface_version, old(self).host) {
                    Compatibility::Compatible => LoadOutcome::Enabled,
                    Compatibility::Incompatible(reason) => LoadOutcome::Disabled(reason),
                }
            }),
            r is DuplicateId || r is NoCapacity ==> final(self).providers@ == old(
                self,
            ).providers@,
            r is Enabled || r is Disabled ==> {
                let added = final(self).providers@.last();
                &&& final(self).providers@.len() == old(self).providers@.len() + 1
                &&& final(self).providers@.drop_last() == old(self).providers@
                &&& added.metadata == metadata
                &&& added.binary == binary
                &&& added.status == status_for(metadata.interface_version, old(self).host)
                &&& added.pool@.slots == Seq::new(capacity as nat, |i: int| crate::pool::Slot::Vacant)
                &&& added.pool@.waiting.len() == 0
            },
    {
        if self.find(metadata.id).is_some() {
            return LoadOutcome::DuplicateId;
        }
        let pool = match Pool::new(capacity) {
            Some(pool) => pool,
            None => {
                return LoadOutcome::NoCapacity;
            },
        };
        let (status, outcome) = match check(metadata.interface_version, self.host) {
            Compatibility::Compatible => (Status::Enabled, LoadOutcome::Enabled),
            Compatibility::Incompatible(reason) => (
                Status::Disabled(reason),
                LoadOutcome::Disabled(reason),
            ),
        };
        let ghost id = metadata.id;
        self.providers.push(LoadedProvider { metadata, status, binary, pool });
        proof {
            let before = old(self).providers@;
            let after = self.providers@;
            assert(after.drop_last() =~= before);
            assert forall|i: int, j: int|
                0 <= i < after.len() && 0 <= j < after.len() && i != j implies (
            #[trigger] after[i]).metadata.id != (#[trigger] after[j]).metadata.id by {
                if i < before.len() && j < before.len() {
                    assert(after[i] == before[i] && after[j] == before[j]);
                } else if i < before.len() {
                    assert(!id_at(before, id, i));
                } else {
                    assert(!id_at(before, id, j));
                }
            }
        }
        outcome
    }

    /// Unloads the provider with this identifier and hands it back. An
    /// unknown identifier leaves the registry as it was.
    pub fn remove(&mut self, id: i64) -> (r: Option<LoadedProvider>)
        requires
            old(self).wf(),
        ensures
            final(self).wf(),
            final(self).host == old(self).host,
            r is Some <==> old(self).knows(id),
            !final(self).knows(id),
            match r {
                Some(gone) => exists|i: int|
                    {
                        &&& id_at(old(self).providers@, id, i)
                        &&& gone == old(self).providers@[i]
                        &&& final(self).providers@ == old(self).providers@.remove(i)
                    },
                None => final(self).providers@ == old(self).providers@,
            },
    {
        match self.find(id) {
            Some(i) => {
                let gone = self.providers.remove(i);
                proof {
                    let before = old(self).providers@;
                    let after = self.providers@;
                    assert(id_at(before, id, i as int));
                    assert forall|a: int, b: int|
                        0 <= a < after.len() && 0 <= b < after.len() && a != b implies (
                    #[trigger] after[a]).metadata.id != (#[trigger] after[b]).metadata.id by {
                        let a0 = if a < i { a } else { a + 1 };
                        let b0 = if b < i { b } else { b + 1 };
                        assert(after[a] == before[a0] && after[b] == before[b0]);
                    }
                    assert forall|a: int| 0 <= a < after.len() implies (#[trigger] after[a]).status
                        == status_for(after[a].metadata.interface_version, self.host)
                        && after[a].pool.wf() by {
                        let a0 = if a < i { a } else { a + 1 };
                        assert(after[a] == before[a0]);
                    }
                    assert forall|a: int| !id_at(after, id, a) by {
                        if 0 <= a < after.len() {
                            let a0 = if a < i { a } else { a + 1 };
                            assert(after[a] == before[a0]);
                        }
                    }
                }
                Some(gone)
            },
            None => None,
        }
    }

    /// The metadata of every enabled provider, in load order. Disabled
    /// providers are left out.
    pub fn list(&self) -> (r: Vec<ProviderMetadata>)
        ensures
            r@.len() == listing(self.providers@).len(),
            forall|k: int| 0 <= k < r@.len() ==> (#[trigger] r@[k])@ == listing(self.providers@)[k],
    {
        let mut out: Vec<ProviderMetadata> = Vec::new();
        let mut i: usize = 0;
        while i < self.providers.len()
            invariant
                i <= self.providers@.len(),
                out@.len() == listing(self.providers@.take(i as int)).len(),
                forall|k: int|
                    0 <= k < out@.len() ==> (#[trigger] out@[k])@ == listing(
                        self.providers@.take(i as int),
                    )[k],
            decreases self.providers@.len() - i,
        {
            proof {
                assert(self.providers@.take(i + 1).drop_last() =~= self.providers@.take(i as int));
            }
            if let Status::Enabled = self.providers[i].status {
                out.push(self.providers[i].metadata.clone());
            }
            i += 1;
        }
        proof {
            assert(self.providers@.take(i as int) =~= self.providers@);
        }
        out
    }

    /// Every provider with its status, in load order: the listing for
    /// diagnostics, which shows the disabled providers and why they are
    /// disabled.
    pub fn list_all(&self) -> (r: Vec<(ProviderMetadata, Status)>)
        ensures
            r@.len() == self.providers@.len(),
            forall|k: int|
                0 <= k < r@.len() ==> (#[trigger] r@[k]).0@ == self.providers@[k].metadata@
                    && r@[k].1 == self.providers@[k].status,
    {
        let mut out: Vec<(ProviderMetadata, Status)> = Vec::new();
        let mut i: usize = 0;
        while i < self.providers.len()
            invariant
                i <= self.providers@.len(),
                out@.len() == i,
                forall|k: int|
                    0 <= k < i ==> (#[trigger] out@[k]).0@ == self.providers@[k].metadata@
                        && out@[k].1 == self.providers@[k].status,
            decreases self.providers@.len() - i,
        {
            out.push((self.providers[i].metadata.clone(), self.providers[i].status));
            i += 1;
        }
        out
    }
}

/// The positions of those of the first `n` store entries that a host keeps
/// when it loads them in order: an entry is kept when its header is valid,
/// the pools have room (`capacity` is not zero) and no entry kept before it
/// has its identifier.
pub open spec fn kept(entries: Seq<StoreEntry>, capacity: usize, n: nat) -> Seq<int>
    decreases n,
{
    if n == 0 {
        Seq::empty()
    } else {
        let before = kept(entries, capacity, (n - 1) as nat);
        if header_verdict(entries[n - 1].binary@) is Ok && capacity > 0 && !taken(
            entries,
            before,
            entries[n - 1].metadata.id,
        ) {
            before.push(n - 1)
        } else {
            before
        }
    }
}

/// One of the entries at the positions `at` has the identifier `id`.
pub open spec fn taken(entries: Seq<StoreEntry>, at: Seq<int>, id: i64) -> bool {
    exists|k: int| 0 <= k < at.len() && entries[#[trigger] at[k]].metadata.id == id
}

/// What becomes of the store entry at position `i` when a host that supports
/// `host` loads the entries in order: a corrupt entry is skipped with the
/// verdict on its header, any other is offered to the registry.
pub open spec fn populate_outcome(
    entries: Seq<StoreEntry>,
    host: InterfaceVersion,
    capacity: usize,
    i: int,
) -> Result<LoadOutcome, StoreError> {
    match header_verdict(entries[i].binary@) {
        Err(e) => Err(e),
        Ok(()) => Ok(
            if taken(entries, kept(entries, capacity, i as nat), entries[i].metadata.id) {
                LoadOutcome::DuplicateId
            } else if capacity == 0 {
                LoadOutcome::NoCapacity
            } else {
                match verdict(entries[i].metadata.interface_version, host) {
                    Compatibility::Compatible => LoadOutcome::Enabled,
                    Compatibility::Incompatible(reason) => LoadOutcome::Disabled(reason),
                }
            },
        ),
    }
}

/// The providers `s` are the store entries at the positions `at`, in order.
pub open spec fn holds_entries(s: Seq<LoadedProvider>, entries: Seq<StoreEntry>, at: Seq<int>) -> bool {
    &&& s.len() == at.len()
    &&& forall|k: int|
        0 <= k < s.len() ==> {
            &&& 0 <= #[trigger] at[k] < entries.len()
            &&& s[k].metadata == entries[at[k]].metadata
            &&& s[k].binary == entries[at[k]].binary
        }
}

impl Registry {
    /// Builds the registry of a host from the entries of its module store.
    ///
    /// The entries are taken in order. One with a corrupt header is skipped
    /// and reported, and the scan goes on; every other one is offered to the
    /// registry as by [`Registry::load`], so that an incompatible provider
    /// is recorded as disabled and never dropped. The second result tells
    /// for each entry what became of it.
    pub fn populate(host: InterfaceVersion, entries: Vec<StoreEntry>, capacity: usize) -> (r: (
        Registry,
        Vec<Result<LoadOutcome, StoreError>>,
    ))
        ensures
            r.0.wf(),
            r.0.host == host,
            holds_entries(r.0.providers@, entries@, kept(entries@, capacity, entries@.len())),
            r.1@.len() == entries@.len(),
            forall|i: int|
                0 <= i < entries@.len() ==> #[trigger] r.1@[i] == populate_outcome(
                    entries@,
                    host,
                    capacity,
                    i,
                ),
    {
        let ghost all = entries@;
        let mut entries = entries;
        let mut registry = Registry::new(host);
        let mut outcomes: Vec<Result<LoadOutcome, StoreError>> = Vec::new();
        let total = entries.len();
        let mut n: usize = 0;
        while n < total
            invariant
                n <= total,
                total == all.len(),
                entries@ == all.skip(n as int),
                registry.wf(),
                registry.host == host,
                holds_entries(registry.providers@, all, kept(all, capacity, n as nat)),
                outcomes@.len() == n,
                forall|i: int|
                    0 <= i < n ==> #[trigger] outcomes@[i] == populate_outcome(
                        all,
                        host,
                        capacity,
                        i,
                    ),
            decreases total - n,
        {
            let ghost before = registry.providers@;
            let ghost at = kept(all, capacity, n as nat);
            let entry = entries.remove(0);
            proof {
                assert(entry == all[n as int]);
                assert(entries@ =~= all.skip(n + 1));
                // The registry knows an identifier exactly when a kept entry has it.
                if registry.knows(entry.metadata.id) {
                    let k = choose|k: int| id_at(before, entry.metadata.id, k);
                    assert(all[at[k]].metadata.id == entry.metadata.id);
                }
                if taken(all, at, entry.metadata.id) {
                    let k = choose|k: int|
                        0 <= k < at.len() && all[#[trigger] at[k]].metadata.id
                            == entry.metadata.id;
                    assert(id_at(before, entry.metadata.id, k));
                }
            }
            let outcome = match validate_header(entry.binary.as_slice()) {
                Err(e) => Err(e),
                Ok(()) => Ok(registry.load(entry.metadata, entry.binary, capacity)),
            };
            proof {
                let after = registry.providers@;
                let now = kept(all, capacity, (n + 1) as nat);
                if after.len() == before.len() + 1 {
                    assert(after.drop_last() == before);
                    assert(now == at.push(n as int));
                    assert forall|k: int| 0 <= k < after.len() implies {
                        &&& 0 <= #[trigger] now[k] < all.len()
                        &&& after[k].metadata == all[now[k]].metadata
                        &&& after[k].binary == all[now[k]].binary
                    } by {
                        if k < before.len() {
                            assert(after[k] == after.drop_last()[k]);
                        }
                    }
                } else {
                    assert(after == before);
                    assert(now == at);
                }
            }
            outcomes.push(outcome);
            n += 1;
        }
        (registry, outcomes)
    }
    /// Replaces the contents of the registry by what the module store holds
    /// now, as [`Registry::populate`] builds it for the same host. Every
    /// provider starts anew, with an untouched pool.
    pub fn refresh(&mut self, entries: Vec<StoreEntry>, capacity: usize) -> (r: Vec<
        Result<LoadOutcome, StoreError>,
    >)
        ensures
            final(self).wf(),
            final(self).host == old(self).host,
            holds_entries(
                final(self).providers@,
                entries@,
                kept(entries@, capacity, entries@.len()),
            ),
            r@.len() == entries@.len(),
            forall|i: int|
                0 <= i < entries@.len() ==> #[trigger] r@[i] == populate_outcome(
                    entries@,
                    old(self).host,
                    capacity,
                    i,
                ),
    {
        let (fresh, outcomes) = Registry::populate(self.host, entries, capacity);
        *self = fresh;
        outcomes
    }
}

/// Every listed entry is the metadata of an enabled provider, and the
/// metadata of every enabled provider is listed.
pub proof fn lemma_listing_members(s: Seq<LoadedProvider>, m: ProviderMetadataView)
    ensures
        listing(s).contains(m) <==> exists|i: int|
            0 <= i < s.len() && (#[trigger] s[i]).status is Enabled && s[i].metadata@ == m,
    decreases s.len(),
{
    if s.len() == 0 {
    } else {
        let front = s.drop_last();
        lemma_listing_members(front, m);
        if listing(s).contains(m) {
            let k = listing(s).index_of(m);
            if s.last().status is Enabled && k == listing(front).len() {
                assert(s[s.len() - 1].status is Enabled && s[s.len() - 1].metadata@ == m);
            } else {
                assert(listing(front)[k] == m);
                assert(listing(front).contains(m));
                let i = choose|i: int|
                    0 <= i < front.len() && (#[trigger] front[i]).status is Enabled
                        && front[i].metadata@ == m;
                assert(s[i] == front[i]);
            }
        }
        if exists|i: int|
            0 <= i < s.len() && (#[trigger] s[i]).status is Enabled && s[i].metadata@ == m {
            let i = choose|i: int|
                0 <= i < s.len() && (#[trigger] s[i]).status is Enabled && s[i].metadata@ == m;
            if i == s.len() - 1 {
                assert(listing(s)[listing(front).len() as int] == m);
            } else {
                assert(front[i] == s[i]);
                assert(listing(front).contains(m));
                let k = listing(front).index_of(m);
                assert(listing(s)[k] == m);
            }
        }
    }
}

/// The identifiers in a listing are pairwise distinct whenever those of the
/// providers are.
pub proof fn lemma_listing_ids_distinct(s: Seq<LoadedProvider>)
    requires
        distinct_ids(s),
    ensures
        forall|a: int, b: int|
            0 <= a < b < listing(s).len() ==> (#[trigger] listing(s)[a]).id != (
            #[trigger] listing(s)[b]).id,
    decreases s.len(),
{
    if s.len() == 0 {
    } else {
        let front = s.drop_last();
        assert forall|i: int, j: int|
            0 <= i < front.len() && 0 <= j < front.len() && i != j implies (
        #[trigger] front[i]).metadata.id != (#[trigger] front[j]).metadata.id by {
            assert(front[i] == s[i] && front[j] == s[j]);
        }
        lemma_listing_ids_distinct(front);
        if s.last().status is Enabled {
            assert forall|a: int, b: int| 0 <= a < b < listing(s).len() implies (
            #[trigger] listing(s)[a]).id != (#[trigger] listing(s)[b]).id by {
                if b == listing(front).len() {
                    let m = listing(front)[a];
                    assert(listing(front).contains(m));
                    lemma_listing_members(front, m);
                    let i = choose|i: int|
                        0 <= i < front.len() && (#[trigger] front[i]).status is Enabled
                            && front[i].metadata@ == m;
                    assert(front[i] == s[i]);
                    assert(s[i].metadata.id != s[s.len() - 1].metadata.id);
                } else {
                    assert(listing(s)[a] == listing(front)[a]);
                    assert(listing(s)[b] == listing(front)[b]);
                }
            }
        }
    }
}

/// A listing never holds two entries with one identifier.
pub proof fn lemma_list_ids_distinct(registry: Registry)
    requires
        registry.wf(),
    ensures
        forall|a: int, b: int|
            0 <= a < b < listing(registry.providers@).len() ==> (#[trigger] listing(
                registry.providers@,
            )[a]).id != (#[trigger] listing(registry.providers@)[b]).id,
{
    lemma_listing_ids_distinct(registry.providers@);
}

/// A provider built against another major version than the host's is in the
/// registry, but it is not served and no listed entry carries its
/// identifier.
pub proof fn lemma_other_major_not_served(registry: Registry, i: int)
    requires
        registry.wf(),
        0 <= i < registry.providers@.len(),
        registry.providers@[i].metadata.interface_version.major != registry.host.major,
    ensures
        registry.knows(registry.providers@[i].metadata.id),
        registry.providers@[i].status is Disabled,
        !registry.serves(registry.providers@[i].metadata.id),
        forall|k: int|
            0 <= k < listing(registry.providers@).len() ==> (#[trigger] listing(
                registry.providers@,
            )[k]).id != registry.providers@[i].metadata.id,
{
    let s = registry.providers@;
    let id = s[i].metadata.id;
    assert(id_at(s, id, i));
    assert(s[i].status == status_for(s[i].metadata.interface_version, registry.host));
    assert forall|j: int| id_at(s, id, j) implies !(s[j].status is Enabled) by {
        assert(j == i);
    }
    assert forall|k: int| 0 <= k < listing(s).len() implies (#[trigger] listing(s)[k]).id
        != id by {
        let m = listing(s)[k];
        assert(listing(s).contains(m));
        lemma_listing_members(s, m);
        let j = choose|j: int|
            0 <= j < s.len() && (#[trigger] s[j]).status is Enabled && s[j].metadata@ == m;
        if m.id == id {
            assert(j == i);
        }
    }
}

} // verus!
