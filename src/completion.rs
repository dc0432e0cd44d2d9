use vstd::prelude::*;

use std::collections::VecDeque;

verus! {

/// Whether two byte strings are equal.
pub fn same_bytes(a: &Vec<u8>, b: &Vec<u8>) -> (r: bool)
    ensures
        r == (a@ == b@),
{
    if a.len() != b.len() {
        return false;
    }
    let mut i: usize = 0;
    while i < a.len()
        invariant
            a@.len() == b@.len(),
            i <= a@.len(),
            forall|k: int| 0 <= k < i ==> a@[k] == b@[k],
        decreases a@.len() - i,
    {
        if a[i] != b[i] {
            return false;
        }
        i = i + 1;
    }
    assert(a@ =~= b@);
    true
}

/// A copy of a byte string.
pub fn copy_bytes(a: &Vec<u8>) -> (r: Vec<u8>)
    ensures
        r@ == a@,
{
    let mut out: Vec<u8> = Vec::with_capacity(a.len());
    let mut i: usize = 0;
    while i < a.len()
        invariant
            i <= a@.len(),
            out@ == a@.take(i as int),
        decreases a@.len() - i,
    {
        out.push(a[i]);
        i = i + 1;
        assert(out@ =~= a@.take(i as int));
    }
    assert(out@ =~= a@);
    out
}

/// The ids recorded after `req` is added to `ids` in a tracker of capacity
/// `capacity`.
pub open spec fn added(ids: Seq<Seq<u8>>, capacity: nat, req: Seq<u8>) -> Seq<Seq<u8>> {
    if ids.contains(req) || capacity == 0 {
        ids
    } else if ids.len() == capacity {
        ids.drop_first().push(req)
    } else {
        ids.push(req)
    }
}

/// The request ids whose last fragment has arrived, oldest first, holding at
/// most a fixed number of them: the oldest one leaves to make room.
#[derive(Debug)]
pub struct CompletionReqs {
    fifo_reqs: VecDeque<Vec<u8>>,
    capacity: usize,
}

impl View for CompletionReqs {
    type V = Seq<Seq<u8>>;

    /// The recorded ids, oldest first.
    closed spec fn view(&self) -> Seq<Seq<u8>> {
        self.fifo_reqs@.map_values(|v: Vec<u8>| v@)
    }
}

impl CompletionReqs {
    /// The most ids that are kept.
    pub closed spec fn capacity(&self) -> nat {
        self.capacity as nat
    }

    /// The ids that `is_req_complete` reports.
    pub open spec fn completed(&self) -> Set<Seq<u8>> {
        self@.to_set()
    }

    /// No id is recorded twice, and no more than `capacity` are kept.
    pub open spec fn wf(&self) -> bool {
        &&& self@.len() <= self.capacity()
        &&& self@.no_duplicates()
    }

    pub fn new(size: usize) -> (r: Self)
        ensures
            r.wf(),
            r@ == Seq::<Seq<u8>>::empty(),
            r.capacity() == size,
    {
        let r = CompletionReqs { fifo_reqs: VecDeque::new(), capacity: size };
        assert(r@ =~= Seq::<Seq<u8>>::empty());
        r
    }

    pub fn len(&self) -> (r: usize)
        ensures
            r == self@.len(),
    {
        self.fifo_reqs.len()
    }

    /// Records `req` as complete. An id already recorded stays where it is;
    /// when the tracker is full the oldest id is evicted first.
    pub fn add_req(&mut self, req: &Vec<u8>)
        requires
            old(self).wf(),
        ensures
            final(self).wf(),
            final(self).capacity() == old(self).capacity(),
            final(self)@ == added(old(self)@, old(self).capacity(), req@),
    {
        if self.is_req_complete(req) || self.capacity == 0 {
            return;
        }
        if self.fifo_reqs.len() == self.capacity {
            self.remove_first();
        }
        let ghost mid = self@;
        self.fifo_reqs.push_back(copy_bytes(req));
        assert(self@ =~= mid.push(req@));
        proof {
            assert forall|i: int, j: int|
                0 <= i < self@.len() && 0 <= j < self@.len() && i != j implies self@[i]
                != self@[j] by {
                if i < mid.len() && j < mid.len() {
                    assert(mid[i] != mid[j]);
                } else if i < mid.len() {
                    assert(old(self)@.contains(mid[i]));
                } else {
                    assert(old(self)@.contains(mid[j]));
                }
            }
        }
    }

    /// Drops the oldest recorded id, if there is one.
    pub fn remove_first(&mut self)
        requires
            old(self).wf(),
        ensures
            final(self).wf(),
            final(self).capacity() == old(self).capacity(),
            final(self)@ == if old(self)@.len() == 0 {
                old(self)@
            } else {
                old(self)@.drop_first()
            },
    {
        if self.fifo_reqs.len() > 0 {
            let _ = self.fifo_reqs.pop_front();
            assert(self@ =~= old(self)@.drop_first());
            proof {
                assert forall|i: int, j: int|
                    0 <= i < self@.len() && 0 <= j < self@.len() && i != j implies self@[i]
                    != self@[j] by {
                    assert(self@[i] == old(self)@[i + 1]);
                    assert(self@[j] == old(self)@[j + 1]);
                }
            }
        }
    }

    /// Whether `req` is recorded as complete.
    pub fn is_req_complete(&self, req: &Vec<u8>) -> (r: bool)
        ensures
            r == self@.contains(req@),
            r == self.completed().contains(req@),
    {
        let mut i: usize = 0;
        while i < self.fifo_reqs.len()
            invariant
                i <= self@.len(),
                self@.len() == self.fifo_reqs@.len(),
                forall|k: int| 0 <= k < i ==> self@[k] != req@,
            decreases self@.len() - i,
        {
            if same_bytes(&self.fifo_reqs[i], req) {
                assert(self@[i as int] == req@);
                return true;
            }
            i = i + 1;
        }
        false
    }

    /// Whether the tracker holds as many ids as it can.
    pub fn is_full(&self) -> (r: bool)
        ensures
            r == (self@.len() == self.capacity()),
    {
        self.fifo_reqs.len() == self.capacity
    }
}

/// At every point the ids in the order of arrival and the set that answers
/// `is_req_complete` hold the same ids, each exactly once, and never more of
/// them than the capacity.
pub proof fn lemma_tracker_consistent(c: &CompletionReqs)
    requires
        c.wf(),
    ensures
        c@.len() <= c.capacity(),
        c@.to_set().len() == c@.len(),
        forall|x: Seq<u8>| #[trigger]
            c@.to_multiset().count(x) == if c.completed().contains(x) {
                1nat
            } else {
                0nat
            },
{
    broadcast use vstd::seq_lib::group_to_multiset_ensures;

    c@.lemma_multiset_has_no_duplicates();
    c@.unique_seq_to_set();
    assert forall|x: Seq<u8>| #[trigger]
        c@.to_multiset().count(x) == if c.completed().contains(x) {
            1nat
        } else {
            0nat
        } by {
        if c@.contains(x) {
            assert(c@.to_multiset().contains(x));
        } else {
            assert(!c@.to_multiset().contains(x));
        }
    }
}

/// Adding a new id to a full tracker evicts the oldest one: afterwards it is in
/// neither the order of arrival nor the completed set.
pub proof fn lemma_full_add_evicts_front(c: &CompletionReqs, req: Seq<u8>)
    requires
        c.wf(),
        c@.len() == c.capacity(),
        c.capacity() > 0,
        !c@.contains(req),
    ensures
        !c@.drop_first().push(req).contains(c@[0]),
        !c@.drop_first().push(req).to_set().contains(c@[0]),
        c@.drop_first().push(req).len() == c.capacity(),
{
    let after = c@.drop_first().push(req);
    if after.contains(c@[0]) {
        let k = choose|k: int| 0 <= k < after.len() && after[k] == c@[0];
        if k < after.len() - 1 {
            assert(c@[k + 1] == c@[0]);
        } else {
            assert(c@.contains(req));
        }
    }
}

/// A tracker that keeps a single id replaces it on every add of a new id.
pub proof fn lemma_capacity_one_evicts(c: &CompletionReqs, req: Seq<u8>)
    requires
        c.wf(),
        c.capacity() == 1,
        c@.len() == 1,
        !c@.contains(req),
    ensures
        added(c@, c.capacity(), req) == seq![req],
        !added(c@, c.capacity(), req).contains(c@[0]),
{
    assert(added(c@, c.capacity(), req) =~= seq![req]);
    if seq![req].contains(c@[0]) {
        assert(seq![req][0] == c@[0]);
        assert(c@.contains(req));
    }
}

} // verus!
