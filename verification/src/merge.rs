//! The dynamic fan-in combinator over homogeneous item streams.
//!
//! A [`MergedStreams`] holds a growing and shrinking set of item queues —
//! each the items one underlying stream has ready, in that stream's own
//! order. Queues are visited in a stable round-robin order: each call to
//! [`next`](MergedStreams::next) takes the front item of the queue at the
//! cursor, drops the queue once it is exhausted, and moves the cursor on.
//! New queues may be pushed at any time, including between two takes,
//! which is what lets a recursive directory listing add sub-streams for
//! directories it discovers while results are already flowing. Ordering
//! across queues is round-robin fairness only; ordering within one queue
//! is preserved.

use vstd::prelude::*;

verus! {

/// The combined number of items in a set of queues.
pub open spec fn total_of<T>(qs: Seq<Seq<T>>) -> nat
    decreases qs.len(),
{
    if qs.len() == 0 {
        0
    } else {
        qs[0].len() + total_of(qs.drop_first())
    }
}

proof fn lemma_total_push<T>(qs: Seq<Seq<T>>, q: Seq<T>)
    ensures
        total_of(qs.push(q)) == total_of(qs) + q.len(),
    decreases qs.len(),
{
    if qs.len() == 0 {
        assert(qs.push(q)[0] == q);
        assert(qs.push(q).drop_first() =~= Seq::<Seq<T>>::empty());
        assert(total_of(Seq::<Seq<T>>::empty()) == 0);
    } else {
        assert(qs.push(q)[0] == qs[0]);
        assert(qs.push(q).drop_first() =~= qs.drop_first().push(q));
        lemma_total_push(qs.drop_first(), q);
    }
}

proof fn lemma_total_update<T>(qs: Seq<Seq<T>>, k: int, q: Seq<T>)
    requires
        0 <= k < qs.len(),
    ensures
        total_of(qs.update(k, q)) == total_of(qs) - qs[k].len() + q.len(),
    decreases k,
{
    if k == 0 {
        assert(qs.update(0, q)[0] == q);
        assert(qs.update(0, q).drop_first() =~= qs.drop_first());
    } else {
        assert(qs.update(k, q)[0] == qs[0]);
        assert(qs.update(k, q).drop_first() =~= qs.drop_first().update(k - 1, q));
        lemma_total_update(qs.drop_first(), k - 1, q);
    }
}

proof fn lemma_total_remove<T>(qs: Seq<Seq<T>>, k: int)
    requires
        0 <= k < qs.len(),
    ensures
        total_of(qs.remove(k)) == total_of(qs) - qs[k].len(),
    decreases k,
{
    if k == 0 {
        assert(qs.remove(0) =~= qs.drop_first());
    } else {
        assert(qs.remove(k)[0] == qs[0]);
        assert(qs.remove(k).drop_first() =~= qs.drop_first().remove(k - 1));
        lemma_total_remove(qs.drop_first(), k - 1);
    }
}

proof fn lemma_total_pos<T>(qs: Seq<Seq<T>>, k: int)
    requires
        0 <= k < qs.len(),
        qs[k].len() > 0,
    ensures
        total_of(qs) > 0,
    decreases k,
{
    if k > 0 {
        assert(qs.drop_first()[k - 1] == qs[k]);
        lemma_total_pos(qs.drop_first(), k - 1);
    }
}

/// A fan-in over item queues, visited round-robin; see the module
/// documentation.
pub struct MergedStreams<T> {
    queues: Vec<Vec<T>>,
    cursor: usize,
}

impl<T> MergedStreams<T> {
    /// The items still held, one inner sequence per live queue, in the
    /// order the queues stand.
    pub closed spec fn remaining(&self) -> Seq<Seq<T>> {
        self.queues@.map_values(|q: Vec<T>| q@)
    }

    /// The round-robin cursor: the index of the queue the next take
    /// visits.
    pub closed spec fn cur(&self) -> int {
        self.cursor as int
    }

    /// Well-formedness: no held queue is empty (exhausted queues are
    /// dropped at once), and the cursor points at a queue or rests at
    /// zero.
    pub open spec fn wf(&self) -> bool {
        &&& forall|i: int|
            0 <= i < self.remaining().len() ==> (#[trigger] self.remaining()[i]).len() > 0
        &&& self.cur() < self.remaining().len() || self.cur() == 0
    }

    /// The combined number of items still held.
    pub open spec fn total(&self) -> nat {
        total_of(self.remaining())
    }

    /// An empty merger: no queues, nothing to yield.
    pub fn new() -> (r: MergedStreams<T>)
        ensures
            r.wf(),
            r.remaining() == Seq::<Seq<T>>::empty(),
            r.total() == 0,
    {
        let r = MergedStreams { queues: Vec::new(), cursor: 0 };
        proof {
            assert(r.remaining() =~= Seq::<Seq<T>>::empty());
        }
        r
    }

    /// Adds one stream's items as a new queue at the end of the visit
    /// order; an empty stream contributes nothing and is dropped at once.
    /// May be called at any time, also while consumption is under way.
    pub fn push(&mut self, items: Vec<T>)
        requires
            old(self).wf(),
        ensures
            final(self).wf(),
            items@.len() > 0 ==> final(self).remaining() == old(self).remaining().push(items@),
            items@.len() == 0 ==> final(self).remaining() == old(self).remaining(),
            final(self).total() == old(self).total() + items@.len(),
            final(self).cur() == old(self).cur(),
    {
        let ghost old_q = self.queues@;
        let ghost it = items@;
        if items.len() > 0 {
            self.queues.push(items);
            proof {
                assert(self.remaining() =~= old(self).remaining().push(it)) by {
                    assert forall|k: int| 0 <= k < self.remaining().len() implies
                        #[trigger] self.remaining()[k] == old(self).remaining().push(it)[k] by {
                        assert(self.remaining()[k] == self.queues@[k]@);
                        if k < old_q.len() {
                            assert(self.queues@[k] == old_q[k]);
                            assert(old(self).remaining()[k] == old_q[k]@);
                        }
                    }
                }
                lemma_total_push(old(self).remaining(), it);
            }
        } else {
            proof {
                assert(self.remaining() =~= old(self).remaining());
            }
        }
    }

    /// Takes the next item, round-robin: the front of the queue at the
    /// cursor. The queue is dropped once exhausted; the cursor then stays
    /// on the queue that slid into its place, and otherwise moves one
    /// position on, wrapping to the front either way. Yields nothing
    /// exactly when no items remain.
    pub fn next(&mut self) -> (r: Option<T>)
        requires
            old(self).wf(),
        ensures
            final(self).wf(),
            r is Some <==> old(self).total() > 0,
            old(self).total() == 0 ==> final(self).remaining() == old(self).remaining()
                && final(self).cur() == old(self).cur(),
            old(self).total() > 0 ==> {
                let k = old(self).cur();
                let q = old(self).remaining()[k];
                &&& r matches Some(x) && x == q[0]
                &&& q.len() == 1 ==> final(self).remaining() == old(self).remaining().remove(k)
                    && final(self).cur() == (if k < old(self).remaining().len() - 1 {
                    k
                } else {
                    0
                })
                &&& q.len() > 1 ==> final(self).remaining() == old(self).remaining().update(
                    k,
                    q.drop_first(),
                ) && final(self).cur() == (if k + 1 < old(self).remaining().len() {
                    k + 1
                } else {
                    0
                })
            },
            final(self).total() == old(self).total() - (if old(self).total() > 0 {
                1int
            } else {
                0int
            }),
    {
        if self.queues.len() == 0 {
            proof {
                assert(self.remaining() =~= Seq::<Seq<T>>::empty());
            }
            return None;
        }
        proof {
            lemma_total_pos(old(self).remaining(), old(self).cur());
        }
        let k = self.cursor;
        let ghost old_rem = self.remaining();
        let mut q = self.queues.remove(k);
        let ghost shrunk = self.queues@;
        let item = q.remove(0);
        if q.len() > 0 {
            let ghost qv = q@;
            self.queues.insert(k, q);
            self.cursor = self.cursor + 1;
            if self.cursor >= self.queues.len() {
                self.cursor = 0;
            }
            proof {
                assert(self.remaining() =~= old_rem.update(k as int, qv)) by {
                    assert forall|j: int| 0 <= j < self.remaining().len() implies
                        #[trigger] self.remaining()[j] == old_rem.update(k as int, qv)[j] by {
                        assert(self.remaining()[j] == self.queues@[j]@);
                        if j < k as int {
                            assert(self.queues@[j] == old(self).queues@[j]);
                            assert(old_rem[j] == old(self).queues@[j]@);
                        } else if j == k as int {
                            assert(self.queues@[j]@ == qv);
                        } else {
                            assert(self.queues@[j] == old(self).queues@[j]);
                            assert(old_rem[j] == old(self).queues@[j]@);
                        }
                    }
                }
                lemma_total_update(old_rem, k as int, qv);
                assert(old_rem[k as int] == old(self).queues@[k as int]@);
                assert(qv == old_rem[k as int].drop_first());
            }
            Some(item)
        } else {
            if self.cursor >= self.queues.len() {
                self.cursor = 0;
            }
            proof {
                assert(self.remaining() =~= old_rem.remove(k as int)) by {
                    assert forall|j: int| 0 <= j < self.remaining().len() implies
                        #[trigger] self.remaining()[j] == old_rem.remove(k as int)[j] by {
                        assert(self.remaining()[j] == self.queues@[j]@);
                        if j < k as int {
                            assert(self.queues@[j] == old(self).queues@[j]);
                            assert(old_rem[j] == old(self).queues@[j]@);
                        } else {
                            assert(self.queues@[j] == old(self).queues@[j + 1]);
                            assert(old_rem[j + 1] == old(self).queues@[j + 1]@);
                        }
                    }
                }
                lemma_total_remove(old_rem, k as int);
                assert(old_rem[k as int] == old(self).queues@[k as int]@);
            }
            Some(item)
        }
    }

    /// Drains the merger: takes items until none remain. The merger with
    /// combined item count `M` yields exactly `M` items and then reports
    /// completion.
    pub fn drain(&mut self) -> (r: Vec<T>)
        requires
            old(self).wf(),
            old(self).total() <= usize::MAX,
        ensures
            final(self).wf(),
            r@.len() == old(self).total(),
            final(self).total() == 0,
    {
        let mut r: Vec<T> = Vec::new();
        loop
            invariant
                self.wf(),
                r@.len() + self.total() == old(self).total(),
            decreases self.total(),
        {
            match self.next() {
                Some(x) => {
                    r.push(x);
                },
                None => {
                    return r;
                },
            }
        }
    }
}

} // verus!
