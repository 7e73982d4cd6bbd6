//! Queue records: one durable entry per pending synchronization action,
//! and the two retrieval disciplines over a listed queue.
//!
//! Order-sensitive syncers stop at the first frozen record they meet,
//! preserving the causal order of dependent edits; order-independent
//! syncers (file transfers) skip frozen records and continue, so one
//! broken transfer does not block unrelated ones.

use vstd::prelude::*;

verus! {

/// What kind of pending action a queue record stands for.
#[derive(Clone, Copy, PartialEq, Eq, Structural, Debug)]
pub enum SyncType {
    /// An ordinary outgoing change, processed in causal order.
    Outgoing,
    /// A pending attachment download.
    FileIncoming,
    /// A pending attachment upload.
    FileOutgoing,
}

/// One durable entry of the sync queue. The frozen flag is set by an
/// external failure handler after repeated errors, never by a syncer.
pub struct SyncRecord {
    pub id: String,
    pub item_id: String,
    pub sync_type: SyncType,
    pub frozen: bool,
}

impl Clone for SyncRecord {
    /// A field-for-field copy.
    fn clone(&self) -> (r: Self)
        ensures
            r == *self,
    {
        let r = SyncRecord {
            id: self.id.clone(),
            item_id: self.item_id.clone(),
            sync_type: self.sync_type,
            frozen: self.frozen,
        };
        proof {
            assert(r == *self);
        }
        r
    }
}

/// The records of type `ty`, in stable queue order.
pub open spec fn of_type(records: Seq<SyncRecord>, ty: SyncType) -> Seq<SyncRecord>
    decreases records.len(),
{
    if records.len() == 0 {
        Seq::empty()
    } else {
        let rest = of_type(records.drop_last(), ty);
        if records.last().sync_type == ty {
            rest.push(records.last())
        } else {
            rest
        }
    }
}

/// The records that are not frozen, in stable queue order: the
/// order-independent retrieval discipline.
pub open spec fn skip_frozen_spec(records: Seq<SyncRecord>) -> Seq<SyncRecord>
    decreases records.len(),
{
    if records.len() == 0 {
        Seq::empty()
    } else {
        let rest = skip_frozen_spec(records.drop_last());
        if !records.last().frozen {
            rest.push(records.last())
        } else {
            rest
        }
    }
}

/// The position of the first frozen record, or the length when none is.
pub open spec fn first_frozen(records: Seq<SyncRecord>) -> int
    decreases records.len(),
{
    if records.len() == 0 {
        0
    } else if records[0].frozen {
        0
    } else {
        1 + first_frozen(records.drop_first())
    }
}

/// The prefix before the first frozen record: the order-sensitive
/// retrieval discipline.
pub open spec fn until_frozen_spec(records: Seq<SyncRecord>) -> Seq<SyncRecord> {
    records.take(first_frozen(records))
}

/// `first_frozen` points past a wholly unfrozen prefix, and at a frozen
/// record whenever one exists.
pub proof fn lemma_first_frozen(records: Seq<SyncRecord>)
    ensures
        0 <= first_frozen(records) <= records.len(),
        forall|j: int| 0 <= j < first_frozen(records) ==> !records[j].frozen,
        first_frozen(records) < records.len() ==> records[first_frozen(records)].frozen,
    decreases records.len(),
{
    if records.len() > 0 && !records[0].frozen {
        lemma_first_frozen(records.drop_first());
        assert forall|j: int| 0 <= j < first_frozen(records) implies !records[j].frozen by {
            if j > 0 {
                assert(!records.drop_first()[j - 1].frozen);
            }
        }
    }
}

/// `skip_frozen_spec` seen from the front: the head is kept exactly when
/// it is not frozen, and the tail is handled the same way.
proof fn lemma_skip_frozen_front(records: Seq<SyncRecord>)
    requires
        records.len() > 0,
    ensures
        skip_frozen_spec(records) == (if records[0].frozen {
            skip_frozen_spec(records.drop_first())
        } else {
            seq![records[0]] + skip_frozen_spec(records.drop_first())
        }),
    decreases records.len(),
{
    let d = records.drop_first();
    if records.len() == 1 {
        assert(records.drop_last() =~= Seq::<SyncRecord>::empty());
        assert(d =~= Seq::<SyncRecord>::empty());
        assert(skip_frozen_spec(Seq::<SyncRecord>::empty()) =~= Seq::<SyncRecord>::empty());
        assert(records.last() == records[0]);
        if !records[0].frozen {
            assert(Seq::<SyncRecord>::empty().push(records[0]) =~= seq![records[0]]
                + Seq::<SyncRecord>::empty());
        }
    } else {
        let t = records.drop_last();
        lemma_skip_frozen_front(t);
        assert(t[0] == records[0]);
        assert(t.drop_first() =~= d.drop_last());
        assert(records.last() == d.last());
        assert(d.len() > 0);
        if records[0].frozen {
            if !records.last().frozen {
                assert(skip_frozen_spec(records) == skip_frozen_spec(t).push(records.last()));
            }
        } else {
            if !records.last().frozen {
                assert(skip_frozen_spec(records) == skip_frozen_spec(t).push(records.last()));
                assert((seq![records[0]] + skip_frozen_spec(d.drop_last())).push(d.last())
                    =~= seq![records[0]] + skip_frozen_spec(d.drop_last()).push(d.last()));
            }
        }
    }
}

/// Law: the order-sensitive discipline selects a prefix of what the
/// order-independent discipline selects; stopping at the first frozen
/// record never reorders or adds work relative to skipping frozen ones.
pub proof fn lemma_until_frozen_prefix_of_skip_frozen(records: Seq<SyncRecord>)
    ensures
        until_frozen_spec(records).is_prefix_of(skip_frozen_spec(records)),
    decreases records.len(),
{
    lemma_first_frozen(records);
    if records.len() == 0 {
        assert(until_frozen_spec(records) =~= Seq::<SyncRecord>::empty());
        assert(skip_frozen_spec(records) =~= Seq::<SyncRecord>::empty());
        assert(until_frozen_spec(records) =~= skip_frozen_spec(records).subrange(0, 0));
    } else if records[0].frozen {
        assert(first_frozen(records) == 0);
        assert(until_frozen_spec(records) =~= Seq::<SyncRecord>::empty());
        assert(until_frozen_spec(records) =~= skip_frozen_spec(records).subrange(0, 0));
    } else {
        let d = records.drop_first();
        lemma_skip_frozen_front(records);
        lemma_until_frozen_prefix_of_skip_frozen(d);
        lemma_first_frozen(d);
        assert(first_frozen(records) == 1 + first_frozen(d));
        assert(until_frozen_spec(records) =~= seq![records[0]] + until_frozen_spec(d)) by {
            assert(forall|j: int|
                0 <= j < first_frozen(d) ==> records.take(1 + first_frozen(d))[j + 1] == d.take(
                    first_frozen(d),
                )[j]);
        }
        let u = until_frozen_spec(d);
        let s = skip_frozen_spec(d);
        assert(u =~= s.subrange(0, u.len() as int));
        assert((seq![records[0]] + u) =~= (seq![records[0]] + s).subrange(0, u.len() as int + 1));
    }
}

/// Order-independent retrieval: drops every frozen record, keeps the rest
/// in order.
pub fn skip_frozen(records: &Vec<SyncRecord>) -> (r: Vec<SyncRecord>)
    ensures
        r@ == skip_frozen_spec(records@),
{
    let mut out: Vec<SyncRecord> = Vec::new();
    proof {
        assert(records@.take(0) =~= Seq::<SyncRecord>::empty());
        assert(out@ =~= skip_frozen_spec(records@.take(0)));
    }
    let mut i: usize = 0;
    while i < records.len()
        invariant
            i <= records@.len(),
            out@ == skip_frozen_spec(records@.take(i as int)),
        decreases records@.len() - i,
    {
        if !records[i].frozen {
            out.push(records[i].clone());
        }
        proof {
            let taken = records@.take(i + 1);
            assert(taken.drop_last() =~= records@.take(i as int));
            assert(taken.last() == records@[i as int]);
        }
        i += 1;
    }
    proof {
        assert(records@.take(records@.len() as int) =~= records@);
    }
    out
}

/// Order-sensitive retrieval: the records before the first frozen one.
pub fn take_until_frozen(records: &Vec<SyncRecord>) -> (r: Vec<SyncRecord>)
    ensures
        r@ == until_frozen_spec(records@),
        forall|j: int| 0 <= j < r@.len() ==> !r@[j].frozen,
{
    let n = records.len();
    let mut i: usize = 0;
    while i < n && !records[i].frozen
        invariant
            i <= n,
            n == records@.len(),
            forall|j: int| 0 <= j < i ==> !records@[j].frozen,
        decreases n - i,
    {
        i += 1;
    }
    proof {
        lemma_first_frozen(records@);
        let ff = first_frozen(records@);
        if ff < i {
            assert(records@[ff].frozen);
        }
        if ff > i {
            assert(!records@[i as int].frozen);
        }
        assert(ff == i);
    }
    let mut out: Vec<SyncRecord> = Vec::new();
    proof {
        assert(out@ =~= records@.take(0));
    }
    let mut k: usize = 0;
    while k < i
        invariant
            k <= i <= records@.len(),
            out@ == records@.take(k as int),
        decreases i - k,
    {
        out.push(records[k].clone());
        proof {
            assert(records@.take(k + 1) =~= records@.take(k as int).push(records@[k as int]));
        }
        k += 1;
    }
    proof {
        lemma_first_frozen(records@);
    }
    out
}

} // verus!
