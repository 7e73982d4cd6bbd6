//! An in-memory model of the persisted sync queue.
//!
//! The durable store itself is an external collaborator; this type fixes
//! the contract the syncers rely on: listing pending records of one type
//! in stable insertion order, and deleting a record upon confirmed
//! completion. The hosting application mirrors these mutations onto its
//! persistent store.

use vstd::prelude::*;

use crate::sync_record::SyncRecord;
use crate::sync_record::SyncType;
use crate::sync_record::of_type;

verus! {

/// The records whose id differs from `idv`, in order: what deletion by id
/// leaves behind.
pub open spec fn remove_id(records: Seq<SyncRecord>, idv: Seq<char>) -> Seq<SyncRecord>
    decreases records.len(),
{
    if records.len() == 0 {
        Seq::empty()
    } else {
        let rest = remove_id(records.drop_last(), idv);
        if records.last().id@ != idv {
            rest.push(records.last())
        } else {
            rest
        }
    }
}

/// The sync queue: pending records in insertion order.
pub struct SyncQueue {
    records: Vec<SyncRecord>,
}

impl View for SyncQueue {
    type V = Seq<SyncRecord>;

    /// The queued records, oldest first.
    closed spec fn view(&self) -> Seq<SyncRecord> {
        self.records@
    }
}

impl SyncQueue {
    /// An empty queue.
    pub fn new() -> (q: SyncQueue)
        ensures
            q@ == Seq::<SyncRecord>::empty(),
    {
        let q = SyncQueue { records: Vec::new() };
        proof {
            assert(q@ =~= Seq::<SyncRecord>::empty());
        }
        q
    }

    /// Appends one pending record; the component detecting pending actions
    /// calls this when it enqueues work.
    pub fn push_record(&mut self, record: SyncRecord)
        ensures
            final(self)@ == old(self)@.push(record),
    {
        self.records.push(record);
    }

    /// How many records are queued.
    pub fn len(&self) -> (n: usize)
        ensures
            n == self@.len(),
    {
        self.records.len()
    }

    /// Lists the pending records of one sync type, in stable queue order;
    /// with no filter, every record.
    pub fn find(&self, ty: Option<SyncType>) -> (r: Vec<SyncRecord>)
        ensures
            match ty {
                Some(t) => r@ == of_type(self@, t),
                None => r@ == self@,
            },
    {
        let mut out: Vec<SyncRecord> = Vec::new();
        proof {
            assert(self.records@.take(0) =~= Seq::<SyncRecord>::empty());
            match ty {
                Some(t) => {
                    assert(of_type(self.records@.take(0), t) =~= Seq::<SyncRecord>::empty());
                },
                None => {},
            }
        }
        let mut i: usize = 0;
        while i < self.records.len()
            invariant
                i <= self.records@.len(),
                match ty {
                    Some(t) => out@ == of_type(self.records@.take(i as int), t),
                    None => out@ == self.records@.take(i as int),
                },
            decreases self.records@.len() - i,
        {
            let keep = match ty {
                Some(t) => self.records[i].sync_type == t,
                None => true,
            };
            if keep {
                out.push(self.records[i].clone());
            }
            proof {
                let taken = self.records@.take(i + 1);
                assert(taken.drop_last() =~= self.records@.take(i as int));
                assert(taken.last() == self.records@[i as int]);
            }
            i += 1;
        }
        proof {
            assert(self.records@.take(self.records@.len() as int) =~= self.records@);
        }
        out
    }

    /// Deletes every record whose id equals `id`; called only upon a
    /// confirmed completion.
    pub fn delete(&mut self, id: &String)
        ensures
            final(self)@ == remove_id(old(self)@, id@),
    {
        let mut kept: Vec<SyncRecord> = Vec::new();
        proof {
            assert(self.records@.take(0) =~= Seq::<SyncRecord>::empty());
            assert(kept@ =~= remove_id(self.records@.take(0), id@));
        }
        let mut i: usize = 0;
        while i < self.records.len()
            invariant
                i <= self.records@.len(),
                kept@ == remove_id(self.records@.take(i as int), id@),
            decreases self.records@.len() - i,
        {
            if !(self.records[i].id == *id) {
                kept.push(self.records[i].clone());
            }
            proof {
                let taken = self.records@.take(i + 1);
                assert(taken.drop_last() =~= self.records@.take(i as int));
                assert(taken.last() == self.records@[i as int]);
            }
            i += 1;
        }
        proof {
            assert(self.records@.take(self.records@.len() as int) =~= self.records@);
        }
        self.records = kept;
    }
}

/// No record with id `idv` survives a deletion by `idv`.
pub proof fn lemma_remove_id_removes(records: Seq<SyncRecord>, idv: Seq<char>)
    ensures
        forall|j: int|
            0 <= j < remove_id(records, idv).len() ==> remove_id(records, idv)[j].id@ != idv,
    decreases records.len(),
{
    if records.len() > 0 {
        lemma_remove_id_removes(records.drop_last(), idv);
    }
}

} // verus!
