use vstd::prelude::*;

verus! {

/// One resolved `(hostname, status)` pair held by a snapshot.
pub struct StatusEntry {
    pub hostname: String,
    pub status: String,
}

/// The mathematical value of a `StatusEntry`.
pub ghost struct StatusEntryView {
    pub hostname: Seq<char>,
    pub status: Seq<char>,
}

impl View for StatusEntry {
    type V = StatusEntryView;

    open spec fn view(&self) -> StatusEntryView {
        StatusEntryView { hostname: self.hostname@, status: self.status@ }
    }
}

impl DeepView for StatusEntry {
    type V = StatusEntryView;

    open spec fn deep_view(&self) -> StatusEntryView {
        self.view()
    }
}

impl Clone for StatusEntry {
    fn clone(&self) -> (r: Self)
        ensures
            r@ == self@,
    {
        StatusEntry { hostname: self.hostname.clone(), status: self.status.clone() }
    }
}

/// The hostnames of `s` are pairwise distinct.
pub open spec fn distinct_hostnames(s: Seq<StatusEntryView>) -> bool {
    forall|i: int, j: int| 0 <= i < j < s.len() ==> s[i].hostname != s[j].hostname
}

/// The mapping a sequence of entries stands for; on a repeated hostname the
/// later entry would win, but a well-formed `StatusMap` never repeats one.
pub open spec fn entries_model(s: Seq<StatusEntryView>) -> Map<Seq<char>, Seq<char>>
    decreases s.len(),
{
    if s.len() == 0 {
        Map::empty()
    } else {
        entries_model(s.drop_last()).insert(s.last().hostname, s.last().status)
    }
}

/// What `entries_model` maps each entry of a duplicate-free sequence to:
/// exactly the statuses paired with the hostnames that occur, one per entry.
pub proof fn lemma_entries_model(s: Seq<StatusEntryView>)
    requires
        distinct_hostnames(s),
    ensures
        forall|i: int|
            0 <= i < s.len() ==> entries_model(s).contains_key((#[trigger] s[i]).hostname)
                && entries_model(s)[s[i].hostname] == s[i].status,
        forall|h: Seq<char>|
            #[trigger] entries_model(s).contains_key(h) ==> exists|i: int|
                0 <= i < s.len() && (#[trigger] s[i]).hostname == h,
        entries_model(s).dom().finite(),
        entries_model(s).dom().len() == s.len(),
    decreases s.len(),
{
    if s.len() > 0 {
        let s0 = s.drop_last();
        assert(distinct_hostnames(s0)) by {
            assert forall|i: int, j: int| 0 <= i < j < s0.len() implies s0[i].hostname
                != s0[j].hostname by {
                assert(s[i].hostname != s[j].hostname);
            }
        }
        lemma_entries_model(s0);
        let last = s.last();
        assert forall|i: int|
            0 <= i < s.len() implies entries_model(s).contains_key((#[trigger] s[i]).hostname)
            && entries_model(s)[s[i].hostname] == s[i].status by {
            if i < s.len() - 1 {
                assert(s0[i] == s[i]);
                assert(s[i].hostname != last.hostname);
            }
        }
        assert forall|h: Seq<char>| #[trigger] entries_model(s).contains_key(h) implies exists|
            i: int,
        | 0 <= i < s.len() && (#[trigger] s[i]).hostname == h by {
            if h == last.hostname {
                assert(s[s.len() - 1].hostname == h);
            } else {
                assert(entries_model(s0).contains_key(h));
                let i0 = choose|i: int| 0 <= i < s0.len() && (#[trigger] s0[i]).hostname == h;
                assert(s[i0].hostname == h);
            }
        }
        assert(!entries_model(s0).dom().contains(last.hostname)) by {
            if entries_model(s0).contains_key(last.hostname) {
                let i0 = choose|i: int|
                    0 <= i < s0.len() && (#[trigger] s0[i]).hostname == last.hostname;
                assert(s[i0].hostname == s[s.len() - 1].hostname);
            }
        }
        vstd::set::axiom_set_insert_len(entries_model(s0).dom(), last.hostname);
    }
}

/// A deduplicated mapping from hostname to status, stored as a vector of
/// entries with pairwise distinct hostnames. This is the shape of one
/// complete snapshot from one successful refresh cycle.
pub struct StatusMap {
    entries: Vec<StatusEntry>,
}

impl View for StatusMap {
    type V = Map<Seq<char>, Seq<char>>;

    closed spec fn view(&self) -> Map<Seq<char>, Seq<char>> {
        entries_model(self.entries.deep_view())
    }
}

impl StatusMap {
    /// The stored entries, in storage order (no ordering is promised).
    pub closed spec fn entry_seq(&self) -> Seq<StatusEntryView> {
        self.entries.deep_view()
    }

    /// Well-formed: exactly one entry per hostname.
    pub closed spec fn wf(&self) -> bool {
        distinct_hostnames(self.entries.deep_view())
    }

    /// The empty mapping.
    pub fn new() -> (m: StatusMap)
        ensures
            m.wf(),
            m@ == Map::<Seq<char>, Seq<char>>::empty(),
            m.entry_seq() == Seq::<StatusEntryView>::empty(),
    {
        let m = StatusMap { entries: Vec::new() };
        proof {
            assert(m.entries.deep_view() =~= Seq::<StatusEntryView>::empty());
        }
        m
    }

    /// Add the pair for a hostname not yet present.
    pub fn insert(&mut self, hostname: String, status: String)
        requires
            old(self).wf(),
            !old(self)@.contains_key(hostname@),
        ensures
            final(self).wf(),
            final(self)@ == old(self)@.insert(hostname@, status@),
            final(self).entry_seq() == old(self).entry_seq().push(
                StatusEntryView { hostname: hostname@, status: status@ },
            ),
    {
        let ghost old_dv = self.entries.deep_view();
        let ghost e = StatusEntryView { hostname: hostname@, status: status@ };
        self.entries.push(StatusEntry { hostname, status });
        proof {
            assert(self.entries.deep_view() =~= old_dv.push(e));
            assert(self.entries.deep_view().drop_last() =~= old_dv);
            assert(distinct_hostnames(self.entries.deep_view())) by {
                lemma_entries_model(old_dv);
                let dv = self.entries.deep_view();
                assert forall|i: int, j: int| 0 <= i < j < dv.len() implies dv[i].hostname
                    != dv[j].hostname by {
                    if j == dv.len() - 1 {
                        assert(entries_model(old_dv).contains_key(old_dv[i].hostname));
                    }
                }
            }
        }
    }

    /// The status recorded for a hostname, or `None` where the hostname is
    /// absent from this snapshot.
    pub fn get(&self, hostname: &str) -> (r: Option<&String>)
        requires
            self.wf(),
        ensures
            match r {
                Some(status) => self@.contains_key(hostname@) && status@ == self@[hostname@],
                None => !self@.contains_key(hostname@),
            },
    {
        let key: String = hostname.to_owned();
        let n = self.entries.len();
        let mut i: usize = 0;
        while i < n
            invariant
                n == self.entries.len(),
                i <= n,
                key@ == hostname@,
                self.wf(),
                forall|k: int|
                    0 <= k < i ==> (#[trigger] self.entries.deep_view()[k]).hostname != hostname@,
            decreases n - i,
        {
            if self.entries[i].hostname == key {
                proof {
                    lemma_entries_model(self.entries.deep_view());
                    assert(self.entries.deep_view()[i as int] == self.entries@[i as int]@);
                }
                return Some(&self.entries[i].status);
            }
            proof {
                assert(self.entries.deep_view()[i as int] == self.entries@[i as int]@);
            }
            i += 1;
        }
        proof {
            lemma_entries_model(self.entries.deep_view());
            if self@.contains_key(hostname@) {
                let k = choose|k: int|
                    0 <= k < self.entries.deep_view().len()
                        && (#[trigger] self.entries.deep_view()[k]).hostname == hostname@;
            }
        }
        None
    }

    /// How many hostnames the mapping holds.
    pub fn len(&self) -> (n: usize)
        requires
            self.wf(),
        ensures
            n == self@.dom().len(),
            n == self.entry_seq().len(),
    {
        proof {
            lemma_entries_model(self.entries.deep_view());
        }
        self.entries.len()
    }

    /// The number of stored entries, for walking the snapshot.
    pub fn num_entries(&self) -> (n: usize)
        ensures
            n == self.entry_seq().len(),
    {
        self.entries.len()
    }

    /// The entry at a storage position, for walking the snapshot.
    pub fn entry_at(&self, i: usize) -> (e: &StatusEntry)
        requires
            i < self.entry_seq().len(),
        ensures
            e@ == self.entry_seq()[i as int],
    {
        proof {
            assert(self.entries.deep_view()[i as int] == self.entries@[i as int]@);
        }
        &self.entries[i]
    }
}

impl Clone for StatusMap {
    /// A copy holding the same entries in the same order.
    fn clone(&self) -> (r: Self)
        ensures
            r@ == self@,
            r.entry_seq() == self.entry_seq(),
            self.wf() ==> r.wf(),
    {
        let n = self.entries.len();
        let mut entries: Vec<StatusEntry> = Vec::new();
        let mut i: usize = 0;
        while i < n
            invariant
                n == self.entries.len(),
                i <= n,
                entries.deep_view() =~= self.entries.deep_view().take(i as int),
            decreases n - i,
        {
            let ghost pre = entries.deep_view();
            let c = self.entries[i].clone();
            proof {
                assert(c@ == self.entries.deep_view()[i as int]);
            }
            entries.push(c);
            proof {
                assert(entries.deep_view() =~= pre.push(self.entries.deep_view()[i as int]));
                assert(entries.deep_view() =~= self.entries.deep_view().take(i + 1));
            }
            i += 1;
        }
        proof {
            assert(self.entries.deep_view().take(n as int) =~= self.entries.deep_view());
        }
        StatusMap { entries }
    }
}

} // verus!
