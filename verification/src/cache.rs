use vstd::prelude::*;

use crate::clock::current_millis;
use crate::errors::RefreshError;
use crate::reconcile::{reconcile, reconciled};
use crate::record::NodeRecord;
use crate::status_map::StatusMap;

verus! {

/// What a lookup resolves to in a given snapshot: the recorded status, or
/// absent. Absence is an answer, never an error — it covers both "not yet
/// refreshed" and "missing from the latest snapshot".
pub open spec fn lookup_model(entries: Map<Seq<char>, Seq<char>>, h: Seq<char>) -> Option<
    Seq<char>,
> {
    if entries.contains_key(h) {
        Some(entries[h])
    } else {
        None
    }
}

/// The cache of the latest known status per hostname, together with the
/// time of the most recent successful refresh.
///
/// Exactly one writer (the refresh cycle) mutates it, through
/// `replace_all` or the refresh steps, and each mutation installs one
/// complete snapshot: entries and timestamp move together, and the
/// timestamp never moves backwards. The hosting layer is expected to wrap
/// the cache in its reader/writer exclusion primitive, so a reader sees
/// either the whole previous snapshot or the whole new one, never a mix.
pub struct StatusCache {
    entries: StatusMap,
    last_refreshed_at: i64,
}

impl StatusCache {
    /// Well-formed: the snapshot holds one entry per hostname.
    pub closed spec fn wf(&self) -> bool {
        self.entries.wf()
    }

    /// The installed snapshot's mapping.
    pub closed spec fn entries_map(&self) -> Map<Seq<char>, Seq<char>> {
        self.entries@
    }

    /// When the last successful refresh happened, as milliseconds since
    /// the Unix epoch (the creation time while no refresh succeeded yet).
    pub closed spec fn refreshed_at(&self) -> i64 {
        self.last_refreshed_at
    }

    /// The installed snapshot's entries, in storage order.
    pub closed spec fn entry_seq(&self) -> Seq<crate::status_map::StatusEntryView> {
        self.entries.entry_seq()
    }

    /// An empty cache, stamped with its creation time.
    pub fn new(created_at: i64) -> (c: StatusCache)
        ensures
            c.wf(),
            c.entries_map() == Map::<Seq<char>, Seq<char>>::empty(),
            c.refreshed_at() == created_at,
    {
        StatusCache { entries: StatusMap::new(), last_refreshed_at: created_at }
    }

    /// Discard every previous entry and install `new_entries` as one
    /// complete snapshot, moving the refresh time forward to
    /// `refreshed_at`. Nothing of the previous snapshot survives.
    pub fn replace_all(&mut self, new_entries: StatusMap, refreshed_at: i64)
        requires
            old(self).wf(),
            new_entries.wf(),
            refreshed_at >= old(self).refreshed_at(),
        ensures
            final(self).wf(),
            final(self).entries_map() == new_entries@,
            final(self).refreshed_at() == refreshed_at,
    {
        self.entries = new_entries;
        self.last_refreshed_at = refreshed_at;
    }

    /// The status recorded for `hostname` in the current snapshot, or
    /// `None` where the hostname is absent — absence is not an error.
    pub fn lookup(&self, hostname: &str) -> (r: Option<&String>)
        requires
            self.wf(),
        ensures
            match r {
                Some(status) => lookup_model(self.entries_map(), hostname@) == Some(status@),
                None => lookup_model(self.entries_map(), hostname@) is None,
            },
    {
        self.entries.get(hostname)
    }

    /// A consistent copy of the current snapshot and its refresh time,
    /// for bulk presentation.
    pub fn snapshot(&self) -> (r: (StatusMap, i64))
        requires
            self.wf(),
        ensures
            r.0@ == self.entries_map(),
            r.0.wf(),
            r.0.entry_seq() == self.entry_seq(),
            r.1 == self.refreshed_at(),
    {
        (self.entries.clone(), self.last_refreshed_at)
    }

    /// When the last successful refresh happened.
    pub fn last_refresh(&self) -> (t: i64)
        ensures
            t == self.refreshed_at(),
    {
        self.last_refreshed_at
    }

    /// Apply the outcome of one fetch, stamped `now`. A successful fetch
    /// has its records reconciled and installed wholesale, and the count
    /// of distinct hostnames is returned; any failure leaves the cache —
    /// entries and timestamp — exactly as it was, and hands the error
    /// back for the caller to log.
    pub fn refresh_step(
        &mut self,
        fetched: Result<Vec<NodeRecord>, RefreshError>,
        now: i64,
    ) -> (r: Result<usize, RefreshError>)
        requires
            old(self).wf(),
            now >= old(self).refreshed_at(),
        ensures
            final(self).wf(),
            match fetched {
                Ok(records) => ({
                    &&& final(self).entries_map() == reconciled(records.deep_view())
                    &&& final(self).refreshed_at() == now
                    &&& r matches Ok(n) && n == final(self).entries_map().dom().len()
                }),
                Err(e) => *final(self) == *old(self) && r == Err::<usize, RefreshError>(e),
            },
    {
        match fetched {
            Ok(records) => {
                let map = reconcile(&records);
                let count = map.len();
                self.replace_all(map, now);
                Ok(count)
            },
            Err(e) => Err(e),
        }
    }

    /// One full refresh attempt against the wall clock: as `refresh_step`,
    /// with `now` read from the system clock and clamped so that the
    /// refresh time never moves backwards even if the clock does.
    pub fn refresh(&mut self, fetched: Result<Vec<NodeRecord>, RefreshError>) -> (r: Result<
        usize,
        RefreshError,
    >)
        requires
            old(self).wf(),
        ensures
            final(self).wf(),
            final(self).refreshed_at() >= old(self).refreshed_at(),
            match fetched {
                Ok(records) => ({
                    &&& final(self).entries_map() == reconciled(records.deep_view())
                    &&& r matches Ok(n) && n == final(self).entries_map().dom().len()
                }),
                Err(e) => *final(self) == *old(self) && r == Err::<usize, RefreshError>(e),
            },
    {
        let t = current_millis();
        let now = if t < self.last_refreshed_at {
            self.last_refreshed_at
        } else {
            t
        };
        self.refresh_step(fetched, now)
    }
}

/// After a full replacement installs `new_entries`, a lookup is decided by
/// `new_entries` alone: every hostname present in the new snapshot
/// resolves to its status there, and every hostname absent from it —
/// whether it was present before or never seen — resolves to absent.
pub proof fn lemma_lookup_after_replace(new_entries: Map<Seq<char>, Seq<char>>, h: Seq<char>)
    ensures
        new_entries.contains_key(h) ==> lookup_model(new_entries, h) == Some(new_entries[h]),
        !new_entries.contains_key(h) ==> lookup_model(new_entries, h) is None,
{
}

/// A hostname never fetched resolves to absent, not to an error: in the
/// empty cache a freshly created cache starts with, every lookup is `None`.
pub proof fn lemma_lookup_never_fetched(h: Seq<char>)
    ensures
        lookup_model(Map::empty(), h) is None,
{
}

} // verus!
