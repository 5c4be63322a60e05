//! Fan-out of a timeline's diffs to its subscribers. Each subscriber has a
//! queue: it starts with a snapshot of the list as a `Reset` and then gets
//! every published diff, in the order of publication.

use vstd::prelude::*;
use crate::item::{DiffModel, VectorDiff};

verus! {

/// The models of a queue of diffs.
pub open spec fn diffs_model(q: Seq<VectorDiff>) -> Seq<DiffModel> {
    Seq::new(q.len(), |i: int| q[i]@)
}

/// The pending diffs of every subscriber, by subscriber id; `None` for one
/// that has unsubscribed.
pub struct DiffBroadcast {
    queues: Vec<Option<Vec<VectorDiff>>>,
}

pub open spec fn queue_model(q: Option<Vec<VectorDiff>>) -> Option<Seq<DiffModel>> {
    match q {
        Some(v) => Some(diffs_model(v@)),
        None => None,
    }
}

impl DiffBroadcast {
    /// The pending diffs of each subscriber.
    pub closed spec fn model(&self) -> Seq<Option<Seq<DiffModel>>> {
        Seq::new(self.queues@.len(), |i: int| queue_model(self.queues@[i]))
    }

    /// No subscribers.
    pub fn new() -> (r: DiffBroadcast)
        ensures
            r.model() == Seq::<Option<Seq<DiffModel>>>::empty(),
    {
        let r = DiffBroadcast { queues: Vec::new() };
        assert(r.model() =~= Seq::<Option<Seq<DiffModel>>>::empty());
        r
    }

    /// Adds a subscriber whose queue starts with `snapshot` (the timeline's
    /// `subscribe`); returns its id.
    pub fn subscribe(&mut self, snapshot: VectorDiff) -> (id: usize)
        requires
            snapshot@ is Reset,
        ensures
            id == old(self).model().len(),
            final(self).model() == old(self).model().push(Some(seq![snapshot@])),
    {
        let ghost m = self.model();
        let ghost sm = snapshot@;
        let id = self.queues.len();
        let q: Vec<VectorDiff> = vec![snapshot];
        assert(diffs_model(q@) =~= seq![sm]);
        self.queues.push(Some(q));
        assert(self.model() =~= m.push(Some(seq![sm])));
        id
    }

    /// Stops delivery to subscriber `id`; the others keep their queues.
    pub fn unsubscribe(&mut self, id: usize)
        requires
            id < old(self).model().len(),
        ensures
            final(self).model() == old(self).model().update(id as int, None),
    {
        let ghost m = self.model();
        self.queues.set(id, None);
        assert(self.model() =~= m.update(id as int, None));
    }

    /// Appends `d` to the queue of every subscriber.
    pub fn publish(&mut self, d: &VectorDiff)
        ensures
            final(self).model().len() == old(self).model().len(),
            forall|k: int|
                0 <= k < old(self).model().len() ==> #[trigger] final(self).model()[k] == match old(
                    self,
                ).model()[k] {
                    Some(q) => Some(q.push(d@)),
                    None => None,
                },
    {
        let ghost m = self.model();
        let mut k: usize = 0;
        while k < self.queues.len()
            invariant
                0 <= k <= self.queues@.len(),
                self.queues@.len() == m.len(),
                forall|j: int|
                    0 <= j < k ==> #[trigger] queue_model(self.queues@[j]) == match m[j] {
                        Some(q) => Some(q.push(d@)),
                        None => None,
                    },
                forall|j: int| k <= j < m.len() ==> #[trigger] queue_model(self.queues@[j]) == m[j],
            decreases self.queues@.len() - k,
        {
            let ghost before = self.queues@;
            assert(queue_model(before[k as int]) == m[k as int]);
            let mut q: Option<Vec<VectorDiff>> = None;
            self.queues.set_and_swap(k, &mut q);
            match q {
                Some(mut v) => {
                    let ghost vm = diffs_model(v@);
                    v.push(d.duplicate());
                    assert(diffs_model(v@) =~= vm.push(d@));
                    self.queues.set(k, Some(v));
                    assert(queue_model(self.queues@[k as int]) == Some(m[k as int]->0.push(d@)));
                },
                None => {
                    assert(queue_model(self.queues@[k as int]) == m[k as int]);
                },
            }
            assert forall|j: int| 0 <= j < self.queues@.len() && j != k implies self.queues@[j] == before[j] by {}
            k = k + 1;
        }
        assert forall|j: int| 0 <= j < m.len() implies #[trigger] self.model()[j] == match m[j] {
            Some(q) => Some(q.push(d@)),
            None => None,
        } by {
            assert(self.model()[j] == queue_model(self.queues@[j]));
        }
    }

    /// Hands out the pending diffs of subscriber `id`, oldest first, and
    /// empties its queue.
    pub fn take(&mut self, id: usize) -> (r: Vec<VectorDiff>)
        requires
            id < old(self).model().len(),
        ensures
            match old(self).model()[id as int] {
                Some(q) => diffs_model(r@) == q && final(self).model() == old(self).model().update(
                    id as int,
                    Some(Seq::empty()),
                ),
                None => r@.len() == 0 && final(self).model() == old(self).model(),
            },
    {
        let ghost m = self.model();
        assert(m[id as int] == queue_model(self.queues@[id as int]));
        let mut q: Option<Vec<VectorDiff>> = None;
        self.queues.set_and_swap(id, &mut q);
        match q {
            Some(v) => {
                let e: Vec<VectorDiff> = Vec::new();
                assert(diffs_model(e@) =~= Seq::<DiffModel>::empty());
                self.queues.set(id, Some(e));
                assert(self.model() =~= m.update(id as int, Some(Seq::<DiffModel>::empty())));
                v
            },
            None => Vec::new(),
        }
    }
}

} // verus!
