//! The unconditional transfer pass shared by the push and pull strategies:
//! a queue of filtered filenames worked off one file at a time, with a count
//! of the transfers completed so far. A failed transfer simply stops the
//! walk, so the count reflects exactly what succeeded before the abort.

use vstd::prelude::*;
use crate::names::{is_json_name, is_json_spec, json_filter, views_of};

verus! {

/// Filenames awaiting one-directional transfer, in listing order, together
/// with the number already transferred.
pub struct TransferQueue {
    names: Vec<String>,
    next_index: usize,
}

impl TransferQueue {
    /// Every filename the queue was built from that passed the filter.
    pub closed spec fn all_names(&self) -> Seq<Seq<char>> {
        views_of(self.names@)
    }

    /// How many transfers have completed.
    pub closed spec fn completed(&self) -> int {
        self.next_index as int
    }

    /// The filenames still awaiting transfer, in order.
    pub open spec fn pending(&self) -> Seq<Seq<char>> {
        self.all_names().skip(self.completed())
    }

    /// Every name the queue holds carries the extension: no other file is
    /// ever considered for transfer.
    pub open spec fn only_json(&self) -> bool {
        forall|i: int|
            0 <= i < self.all_names().len() ==> is_json_spec(#[trigger] self.all_names()[i])
    }

    pub open spec fn wf(&self) -> bool {
        0 <= self.completed() <= self.all_names().len() && self.only_json()
    }

    /// Builds the pass for one collection: keeps exactly the names that
    /// carry the `.json` extension, in listing order; nothing is counted yet.
    pub fn from_names(names: Vec<String>) -> (q: TransferQueue)
        ensures
            q.wf(),
            q.completed() == 0,
            q.all_names() == json_filter(views_of(names@)),
    {
        let ghost all = names@;
        let mut kept: Vec<String> = Vec::new();
        let mut i: usize = 0;
        while i < names.len()
            invariant
                i <= names.len(),
                names@ == all,
                views_of(kept@) == json_filter(views_of(all.take(i as int))),
            decreases names.len() - i,
        {
            let ghost prev_kept = kept@;
            if is_json_name(names[i].as_str()) {
                kept.push(names[i].clone());
            }
            proof {
                assert(views_of(all.take(i + 1)) =~= views_of(all.take(i as int)).push(all[i as int]@));
                crate::names::lemma_json_filter_push(views_of(all.take(i as int)), all[i as int]@);
                if is_json_spec(all[i as int]@) {
                    assert(views_of(kept@) =~= views_of(prev_kept).push(all[i as int]@));
                }
            }
            i = i + 1;
        }
        proof {
            assert(all.take(all.len() as int) =~= all);
            let filtered = json_filter(views_of(all));
            assert forall|k: int| 0 <= k < filtered.len() implies is_json_spec(
                #[trigger] filtered[k],
            ) by {
                assert(filtered.contains(filtered[k]));
                crate::names::lemma_json_filter_member(views_of(all), filtered[k]);
            }
        }
        TransferQueue { names: kept, next_index: 0 }
    }

    /// The next filename to transfer, if the pass is not finished.
    pub fn peek(&self) -> (r: Option<String>)
        requires
            self.wf(),
        ensures
            r is Some <==> self.pending().len() > 0,
            r matches Some(n) ==> n@ == self.pending()[0] && is_json_spec(n@),
    {
        if self.next_index < self.names.len() {
            Some(self.names[self.next_index].clone())
        } else {
            None
        }
    }

    /// Records that the transfer of the next filename succeeded: the count
    /// grows by one and the walk moves on.
    pub fn record_done(&mut self)
        requires
            old(self).wf(),
            old(self).pending().len() > 0,
        ensures
            final(self).wf(),
            final(self).all_names() == old(self).all_names(),
            final(self).completed() == old(self).completed() + 1,
    {
        let n = self.names.len();
        proof {
            assert(self.all_names().len() == self.names@.len());
            assert(self.pending().len() == self.all_names().len() - self.completed());
            assert(self.next_index < n);
        }
        self.next_index = self.next_index + 1;
    }

    /// How many transfers have completed, as a machine integer.
    pub fn completed_count(&self) -> (n: usize)
        ensures
            n as int == self.completed(),
    {
        self.next_index
    }

    /// Whether every queued file has been transferred.
    pub fn is_finished(&self) -> (r: bool)
        requires
            self.wf(),
        ensures
            r <==> self.pending().len() == 0,
    {
        self.next_index == self.names.len()
    }
}

} // verus!
