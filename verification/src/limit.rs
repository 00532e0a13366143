//! The concurrency-limited resource pool.
//!
//! A [`Limited`] wraps a cloneable resource template behind a counting
//! permit pool of fixed capacity: at most that many guards are ever
//! outstanding at once. Taking a permit yields an [`InUse`] guard that
//! owns its own clone of the template; callers that find the pool empty
//! wait (asynchronously, outside this module) and try again. Returning
//! the permit is explicit here; the waiting and the automatic return on
//! drop are layered on top by callers.

use vstd::prelude::*;

verus! {

/// A cloneable resource template behind a counting permit pool.
#[derive(Debug)]
pub struct Limited<T> {
    inner: T,
    capacity: usize,
    available: usize,
}

/// A guard holding one permit and its own clone of the pooled resource.
#[derive(Debug)]
pub struct InUse<T> {
    inner: T,
}

impl<T: Clone> Limited<T> {
    /// The pool's fixed capacity.
    pub closed spec fn cap(&self) -> nat {
        self.capacity as nat
    }

    /// How many permits are free.
    pub closed spec fn free(&self) -> nat {
        self.available as nat
    }

    /// How many guards are outstanding; never exceeds the capacity.
    pub open spec fn outstanding(&self) -> nat {
        (self.cap() - self.free()) as nat
    }

    /// Well-formedness: no more permits are free than the capacity holds.
    pub open spec fn wf(&self) -> bool {
        self.free() <= self.cap()
    }

    /// A pool of `count` permits around the given template.
    pub fn new(base: T, count: usize) -> (r: Limited<T>)
        ensures
            r.wf(),
            r.cap() == count,
            r.free() == count,
            r.outstanding() == 0,
    {
        Limited { inner: base, capacity: count, available: count }
    }

    /// Takes a permit if one is free, handing out a guard around a clone
    /// of the template; yields nothing when all permits are out, and the
    /// caller must retry after one is released.
    pub fn try_take(&mut self) -> (r: Option<InUse<T>>)
        requires
            old(self).wf(),
        ensures
            final(self).wf(),
            final(self).cap() == old(self).cap(),
            r is Some <==> old(self).free() > 0,
            old(self).free() > 0 ==> final(self).free() == old(self).free() - 1
                && final(self).outstanding() == old(self).outstanding() + 1,
            old(self).free() == 0 ==> final(self).free() == 0,
    {
        if self.available > 0 {
            self.available = self.available - 1;
            Some(InUse { inner: self.inner.clone() })
        } else {
            None
        }
    }

    /// Returns a guard's permit to the pool; the guard is consumed.
    pub fn release(&mut self, guard: InUse<T>)
        requires
            old(self).wf(),
            old(self).outstanding() > 0,
        ensures
            final(self).wf(),
            final(self).cap() == old(self).cap(),
            final(self).free() == old(self).free() + 1,
            final(self).outstanding() == old(self).outstanding() - 1,
    {
        let InUse { inner: _ } = guard;
        self.available = self.available + 1;
    }
}

impl<T> InUse<T> {
    /// Read access to the guarded clone.
    pub fn get(&self) -> &T {
        &self.inner
    }

    /// Write access to the guarded clone.
    pub fn get_mut(&mut self) -> &mut T {
        &mut self.inner
    }
}

} // verus!
