use vstd::prelude::*;

use crate::record::{NodeRecord, NodeRecordView};
use crate::status_map::StatusMap;

verus! {

/// How one record amends the mapping built from the records before it: it
/// takes its hostname unless a strictly newer registration already holds
/// it, so on an equal creation index the later-encountered record wins.
pub open spec fn apply_record(
    m: Map<Seq<char>, NodeRecordView>,
    r: NodeRecordView,
) -> Map<Seq<char>, NodeRecordView> {
    if m.contains_key(r.hostname) && r.creation_index < m[r.hostname].creation_index {
        m
    } else {
        m.insert(r.hostname, r)
    }
}

/// The authoritative record per hostname in one cycle's raw records: the
/// record with the highest creation index, the last-encountered among
/// records whose indices tie.
pub open spec fn reconcile_model(rs: Seq<NodeRecordView>) -> Map<Seq<char>, NodeRecordView>
    decreases rs.len(),
{
    if rs.len() == 0 {
        Map::empty()
    } else {
        apply_record(reconcile_model(rs.drop_last()), rs.last())
    }
}

/// The statuses of a mapping of records.
pub open spec fn statuses_of(m: Map<Seq<char>, NodeRecordView>) -> Map<Seq<char>, Seq<char>> {
    Map::new(|h: Seq<char>| m.contains_key(h), |h: Seq<char>| m[h].status)
}

/// What one refresh cycle installs: each hostname mapped to the status of
/// its authoritative record.
pub open spec fn reconciled(rs: Seq<NodeRecordView>) -> Map<Seq<char>, Seq<char>> {
    statuses_of(reconcile_model(rs))
}

/// The hostnames that occur in `rs`.
pub open spec fn hostnames_of(rs: Seq<NodeRecordView>) -> Set<Seq<char>> {
    Set::new(|h: Seq<char>| exists|i: int| 0 <= i < rs.len() && (#[trigger] rs[i]).hostname == h)
}

/// The hostnames of `s` are pairwise distinct.
spec fn distinct_record_hostnames(s: Seq<NodeRecordView>) -> bool {
    forall|i: int, j: int| 0 <= i < j < s.len() ==> s[i].hostname != s[j].hostname
}

/// The mapping that a duplicate-free working vector of winners stands for.
spec fn winners_model(s: Seq<NodeRecordView>) -> Map<Seq<char>, NodeRecordView>
    decreases s.len(),
{
    if s.len() == 0 {
        Map::empty()
    } else {
        winners_model(s.drop_last()).insert(s.last().hostname, s.last())
    }
}

/// A duplicate-free sequence of winners maps each of its hostnames to its
/// own record, and nothing else.
proof fn lemma_winners_model(s: Seq<NodeRecordView>)
    requires
        distinct_record_hostnames(s),
    ensures
        forall|i: int|
            0 <= i < s.len() ==> winners_model(s).contains_key((#[trigger] s[i]).hostname)
                && winners_model(s)[s[i].hostname] == s[i],
        forall|h: Seq<char>|
            #[trigger] winners_model(s).contains_key(h) ==> exists|i: int|
                0 <= i < s.len() && (#[trigger] s[i]).hostname == h,
    decreases s.len(),
{
    if s.len() > 0 {
        let s0 = s.drop_last();
        assert(distinct_record_hostnames(s0)) by {
            assert forall|i: int, j: int| 0 <= i < j < s0.len() implies s0[i].hostname
                != s0[j].hostname by {
                assert(s[i].hostname != s[j].hostname);
            }
        }
        lemma_winners_model(s0);
        let last = s.last();
        assert forall|i: int|
            0 <= i < s.len() implies winners_model(s).contains_key((#[trigger] s[i]).hostname)
            && winners_model(s)[s[i].hostname] == s[i] by {
            if i < s.len() - 1 {
                assert(s0[i] == s[i]);
                assert(s[i].hostname != last.hostname);
            }
        }
        assert forall|h: Seq<char>| #[trigger] winners_model(s).contains_key(h) implies exists|
            i: int,
        | 0 <= i < s.len() && (#[trigger] s[i]).hostname == h by {
            if h == last.hostname {
                assert(s[s.len() - 1].hostname == h);
            } else {
                assert(winners_model(s0).contains_key(h));
                let i0 = choose|i: int| 0 <= i < s0.len() && (#[trigger] s0[i]).hostname == h;
                assert(s[i0].hostname == h);
            }
        }
    }
}

/// Replacing the winner that holds a hostname is an insert on the mapping.
proof fn lemma_winners_update(s: Seq<NodeRecordView>, j: int, r: NodeRecordView)
    requires
        distinct_record_hostnames(s),
        0 <= j < s.len(),
        s[j].hostname == r.hostname,
    ensures
        distinct_record_hostnames(s.update(j, r)),
        winners_model(s.update(j, r)) == winners_model(s).insert(r.hostname, r),
{
    let su = s.update(j, r);
    assert forall|i: int, k: int| 0 <= i < k < su.len() implies su[i].hostname
        != su[k].hostname by {
        assert(su[i].hostname == s[i].hostname);
        assert(su[k].hostname == s[k].hostname);
    }
    lemma_winners_model(s);
    lemma_winners_model(su);
    let ms = winners_model(s).insert(r.hostname, r);
    let mu = winners_model(su);
    assert forall|h: Seq<char>| #[trigger] mu.contains_key(h) implies ms.contains_key(h) by {
        let i = choose|i: int| 0 <= i < su.len() && (#[trigger] su[i]).hostname == h;
        if i != j {
            assert(s[i].hostname == h);
        }
    }
    assert forall|h: Seq<char>| #[trigger] ms.contains_key(h) implies mu.contains_key(h) && mu[h]
        == ms[h] by {
        if h == r.hostname {
            assert(su[j] == r);
            assert(mu[su[j].hostname] == su[j]);
        } else {
            assert(winners_model(s).contains_key(h));
            let i = choose|i: int| 0 <= i < s.len() && (#[trigger] s[i]).hostname == h;
            assert(i != j);
            assert(su[i] == s[i]);
            assert(mu[su[i].hostname] == su[i]);
            assert(winners_model(s)[s[i].hostname] == s[i]);
        }
    }
    assert(mu =~= ms);
}

/// Appending a winner for a hostname not yet held is an insert on the mapping.
proof fn lemma_winners_push(s: Seq<NodeRecordView>, r: NodeRecordView)
    requires
        distinct_record_hostnames(s),
        forall|i: int| 0 <= i < s.len() ==> (#[trigger] s[i]).hostname != r.hostname,
    ensures
        distinct_record_hostnames(s.push(r)),
        winners_model(s.push(r)) == winners_model(s).insert(r.hostname, r),
{
    let sp = s.push(r);
    assert forall|i: int, k: int| 0 <= i < k < sp.len() implies sp[i].hostname
        != sp[k].hostname by {
        if k == sp.len() - 1 {
            assert(sp[i] == s[i]);
        } else {
            assert(sp[i] == s[i]);
            assert(sp[k] == s[k]);
        }
    }
    assert(sp.drop_last() =~= s);
}

/// Reconciliation yields exactly one entry per distinct hostname: its
/// domain is exactly the set of hostnames that occur among the records, so
/// any number of records with K distinct hostnames give exactly K entries.
pub proof fn lemma_reconcile_counts(rs: Seq<NodeRecordView>)
    ensures
        reconcile_model(rs).dom() =~= hostnames_of(rs),
        reconciled(rs).dom() =~= hostnames_of(rs),
        hostnames_of(rs).finite(),
        reconciled(rs).dom().len() == hostnames_of(rs).len(),
    decreases rs.len(),
{
    if rs.len() == 0 {
        assert(hostnames_of(rs) =~= Set::<Seq<char>>::empty());
        assert(reconciled(rs).dom() =~= hostnames_of(rs));
    } else {
        let rs0 = rs.drop_last();
        lemma_reconcile_counts(rs0);
        let last = rs.last();
        assert(reconcile_model(rs).dom() =~= reconcile_model(rs0).dom().insert(last.hostname));
        assert(hostnames_of(rs) =~= hostnames_of(rs0).insert(last.hostname)) by {
            assert forall|h: Seq<char>| hostnames_of(rs).contains(h) implies hostnames_of(
                rs0,
            ).insert(last.hostname).contains(h) by {
                let i = choose|i: int| 0 <= i < rs.len() && (#[trigger] rs[i]).hostname == h;
                if i < rs.len() - 1 {
                    assert(rs0[i].hostname == h);
                }
            }
            assert forall|h: Seq<char>| hostnames_of(rs0).insert(last.hostname).contains(
                h,
            ) implies hostnames_of(rs).contains(h) by {
                if h == last.hostname {
                    assert(rs[rs.len() - 1].hostname == h);
                } else {
                    let i = choose|i: int| 0 <= i < rs0.len() && (#[trigger] rs0[i]).hostname == h;
                    assert(rs[i].hostname == h);
                }
            }
        }
        assert(reconciled(rs).dom() =~= reconcile_model(rs).dom());
    }
}

/// For any two records sharing a hostname, reconciliation keeps exactly
/// one of them — no duplication, no loss: the one with the strictly higher
/// creation index, and the later record when the indices are equal.
pub proof fn lemma_reconcile_pair(r1: NodeRecordView, r2: NodeRecordView)
    requires
        r1.hostname == r2.hostname,
    ensures
        reconcile_model(seq![r1, r2]).dom() =~= set![r1.hostname],
        reconcile_model(seq![r1, r2])[r1.hostname] == (if r2.creation_index >= r1.creation_index {
            r2
        } else {
            r1
        }),
{
    let s = seq![r1, r2];
    let s1 = seq![r1];
    assert(s.drop_last() =~= s1);
    assert(s.last() == r2);
    assert(s1.drop_last() =~= Seq::<NodeRecordView>::empty());
    assert(s1.last() == r1);
    assert(reconcile_model(Seq::<NodeRecordView>::empty()) == Map::<Seq<char>,
        NodeRecordView,
    >::empty());
    assert(reconcile_model(s1) == apply_record(Map::empty(), r1));
    assert(reconcile_model(s1) == Map::empty().insert(r1.hostname, r1));
    assert(reconcile_model(s) == apply_record(reconcile_model(s1), r2));
}

/// What reconciliation keeps for a hostname is one of the records that
/// carry that hostname, and no record carrying it has a strictly higher
/// creation index than the kept one.
pub proof fn lemma_reconcile_authoritative(rs: Seq<NodeRecordView>, h: Seq<char>)
    requires
        reconcile_model(rs).contains_key(h),
    ensures
        reconcile_model(rs)[h].hostname == h,
        exists|i: int| 0 <= i < rs.len() && (#[trigger] rs[i]) == reconcile_model(rs)[h],
        forall|i: int|
            0 <= i < rs.len() && (#[trigger] rs[i]).hostname == h ==> rs[i].creation_index
                <= reconcile_model(rs)[h].creation_index,
    decreases rs.len(),
{
    if rs.len() == 0 {
        assert(false);
    } else {
        let rs0 = rs.drop_last();
        let last = rs.last();
        let m0 = reconcile_model(rs0);
        let m = reconcile_model(rs);
        lemma_reconcile_counts(rs0);
        if h == last.hostname {
            if m0.contains_key(h) && last.creation_index < m0[h].creation_index {
                lemma_reconcile_authoritative(rs0, h);
                let i0 = choose|i: int| 0 <= i < rs0.len() && (#[trigger] rs0[i]) == m0[h];
                assert(rs[i0] == m[h]);
                assert forall|i: int|
                    0 <= i < rs.len() && (#[trigger] rs[i]).hostname == h implies rs[i].creation_index <= m[h].creation_index by {
                    if i < rs.len() - 1 {
                        assert(rs0[i] == rs[i]);
                    }
                }
            } else {
                assert(m[h] == last);
                assert(rs[rs.len() - 1] == m[h]);
                if m0.contains_key(h) {
                    lemma_reconcile_authoritative(rs0, h);
                    assert(m0[h].creation_index <= last.creation_index);
                }
                assert forall|i: int|
                    0 <= i < rs.len() && (#[trigger] rs[i]).hostname == h implies rs[i].creation_index <= m[h].creation_index by {
                    if i < rs.len() - 1 {
                        assert(rs0[i] == rs[i]);
                        assert(hostnames_of(rs0).contains(h));
                        assert(m0.contains_key(h));
                        assert(rs0[i].creation_index <= m0[h].creation_index);
                    }
                }
            }
        } else {
            assert(m0.contains_key(h));
            assert(m[h] == m0[h]);
            lemma_reconcile_authoritative(rs0, h);
            let i0 = choose|i: int| 0 <= i < rs0.len() && (#[trigger] rs0[i]) == m0[h];
            assert(rs[i0] == m[h]);
            assert forall|i: int|
                0 <= i < rs.len() && (#[trigger] rs[i]).hostname == h implies rs[i].creation_index <= m[h].creation_index by {
                if i < rs.len() - 1 {
                    assert(rs0[i] == rs[i]);
                }
            }
        }
    }
}

/// The position in `entries` that holds `hostname`, where there is one.
fn find_hostname(entries: &Vec<NodeRecord>, hostname: &String) -> (r: Option<usize>)
    ensures
        match r {
            Some(j) => j < entries.deep_view().len() && entries.deep_view()[j as int].hostname
                == hostname@,
            None => forall|k: int|
                0 <= k < entries.deep_view().len() ==> (#[trigger] entries.deep_view()[k]).hostname
                    != hostname@,
        },
{
    let n = entries.len();
    let mut i: usize = 0;
    while i < n
        invariant
            n == entries.len(),
            i <= n,
            forall|k: int|
                0 <= k < i ==> (#[trigger] entries.deep_view()[k]).hostname != hostname@,
        decreases n - i,
    {
        proof {
            assert(entries.deep_view()[i as int] == entries@[i as int]@);
        }
        if entries[i].hostname == *hostname {
            return Some(i);
        }
        i += 1;
    }
    None
}

/// Deduplicate one cycle's raw records down to one status per hostname,
/// keeping for each hostname the record with the highest creation index
/// (ties go to the later-encountered record). Pure: the result is a brand
/// new mapping determined by `records` alone.
pub fn reconcile(records: &Vec<NodeRecord>) -> (m: StatusMap)
    ensures
        m.wf(),
        m@ == reconciled(records.deep_view()),
{
    let ghost rdv = records.deep_view();
    let mut winners: Vec<NodeRecord> = Vec::new();
    let n = records.len();
    proof {
        assert(winners.deep_view() =~= Seq::<NodeRecordView>::empty());
        assert(rdv.take(0) =~= Seq::<NodeRecordView>::empty());
    }
    let mut i: usize = 0;
    while i < n
        invariant
            n == records.len(),
            i <= n,
            rdv == records.deep_view(),
            distinct_record_hostnames(winners.deep_view()),
            winners_model(winners.deep_view()) == reconcile_model(rdv.take(i as int)),
        decreases n - i,
    {
        let r = &records[i];
        proof {
            assert(rdv[i as int] == records@[i as int]@);
            assert(rdv.take(i + 1).drop_last() =~= rdv.take(i as int));
            assert(rdv.take(i + 1).last() == rdv[i as int]);
        }
        match find_hostname(&winners, &r.hostname) {
            Some(j) => {
                proof {
                    lemma_winners_model(winners.deep_view());
                }
                if r.creation_index >= winners[j].creation_index {
                    let ghost wdv = winners.deep_view();
                    proof {
                        assert(wdv[j as int] == winners@[j as int]@);
                    }
                    let c = r.clone();
                    winners.set(j, c);
                    proof {
                        assert(winners.deep_view() =~= wdv.update(j as int, rdv[i as int]));
                        lemma_winners_update(wdv, j as int, rdv[i as int]);
                    }
                } else {
                    proof {
                        let wdv = winners.deep_view();
                        assert(wdv[j as int] == winners@[j as int]@);
                        assert(winners_model(wdv)[wdv[j as int].hostname] == wdv[j as int]);
                    }
                }
            }
            None => {
                let ghost wdv = winners.deep_view();
                let c = r.clone();
                winners.push(c);
                proof {
                    assert(winners.deep_view() =~= wdv.push(rdv[i as int]));
                    lemma_winners_model(wdv);
                    let rv = rdv[i as int];
                    if winners_model(wdv).contains_key(rv.hostname) {
                        let k = choose|k: int|
                            0 <= k < wdv.len() && (#[trigger] wdv[k]).hostname == rv.hostname;
                    }
                    lemma_winners_push(wdv, rdv[i as int]);
                }
            }
        }
        i += 1;
    }
    proof {
        assert(rdv.take(n as int) =~= rdv);
    }
    let mut m = StatusMap::new();
    let wn = winners.len();
    let mut k: usize = 0;
    while k < wn
        invariant
            wn == winners.len(),
            k <= wn,
            rdv == records.deep_view(),
            distinct_record_hostnames(winners.deep_view()),
            winners_model(winners.deep_view()) == reconcile_model(rdv),
            m.wf(),
            m@ == statuses_of(winners_model(winners.deep_view().take(k as int))),
        decreases wn - k,
    {
        let ghost wdv = winners.deep_view();
        proof {
            assert(wdv[k as int] == winners@[k as int]@);
            assert(distinct_record_hostnames(wdv.take(k as int))) by {
                assert forall|a: int, b: int|
                    0 <= a < b < wdv.take(k as int).len() implies wdv.take(k as int)[a].hostname
                    != wdv.take(k as int)[b].hostname by {
                    assert(wdv[a].hostname != wdv[b].hostname);
                }
            }
            lemma_winners_model(wdv.take(k as int));
            if m@.contains_key(wdv[k as int].hostname) {
                let pref = wdv.take(k as int);
                let a = choose|a: int|
                    0 <= a < pref.len() && (#[trigger] pref[a]).hostname == wdv[k as int].hostname;
                assert(wdv[a].hostname == wdv[k as int].hostname);
            }
        }
        let e = &winners[k];
        m.insert(e.hostname.clone(), e.status.clone());
        proof {
            assert(wdv.take(k + 1).drop_last() =~= wdv.take(k as int));
            assert(wdv.take(k + 1).last() == wdv[k as int]);
            assert(m@ =~= statuses_of(winners_model(wdv.take(k + 1))));
        }
        k += 1;
    }
    proof {
        assert(winners.deep_view().take(wn as int) =~= winners.deep_view());
        lemma_winners_model(winners.deep_view());
        assert(m@ =~= reconciled(rdv));
    }
    m
}

} // verus!
