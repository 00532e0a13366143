//! The adaptive read-buffer policy.
//!
//! A sequential byte source is drained through one reusable buffer. Each
//! read asks the source for the buffer's remaining capacity and hands the
//! bytes read straight on as an owned chunk; the capacity shrinks by what
//! was read. When the remaining capacity falls under a configurable
//! minimum, a fresh buffer of the configured initial size is used for the
//! next read, so allocation cost is amortized and no read is ever issued
//! into a too-small remainder. A zero-length read means end of stream.

use vstd::prelude::*;

verus! {

/// The default size of a fresh read buffer: 20 MiB.
pub const DEFAULT_INITIAL_BUFFER_SIZE: usize = 20971520;

/// The default low-water mark under which the buffer is replaced: 1 MiB.
pub const DEFAULT_MIN_BUFFER_SIZE: usize = 1048576;

/// The reusable-buffer bookkeeping of an adaptive read stream: how much
/// capacity the current buffer still has, and the two configured sizes.
#[derive(Debug, Clone, Copy)]
pub struct ReadBuffer {
    initial_size: usize,
    minimum_size: usize,
    capacity: usize,
}

impl ReadBuffer {
    /// The configured size of a fresh buffer.
    pub closed spec fn initial(&self) -> nat {
        self.initial_size as nat
    }

    /// The configured low-water mark.
    pub closed spec fn minimum(&self) -> nat {
        self.minimum_size as nat
    }

    /// The remaining capacity of the current buffer.
    pub closed spec fn remaining(&self) -> nat {
        self.capacity as nat
    }

    /// Well-formedness: the low-water mark does not exceed the initial
    /// size, which is positive, and the current capacity never exceeds the
    /// initial size nor falls under the low-water mark.
    pub open spec fn wf(&self) -> bool {
        &&& 0 < self.minimum() <= self.initial()
        &&& self.minimum() <= self.remaining() <= self.initial()
    }

    /// A policy with the given sizes; the first read gets a full buffer.
    pub fn new(initial_size: usize, minimum_size: usize) -> (r: ReadBuffer)
        requires
            0 < minimum_size <= initial_size,
        ensures
            r.wf(),
            r.initial() == initial_size,
            r.minimum() == minimum_size,
            r.remaining() == initial_size,
    {
        ReadBuffer { initial_size, minimum_size, capacity: initial_size }
    }

    /// A policy with the default sizes.
    pub fn with_defaults() -> (r: ReadBuffer)
        ensures
            r.wf(),
            r.initial() == DEFAULT_INITIAL_BUFFER_SIZE,
            r.minimum() == DEFAULT_MIN_BUFFER_SIZE,
            r.remaining() == DEFAULT_INITIAL_BUFFER_SIZE,
    {
        ReadBuffer {
            initial_size: DEFAULT_INITIAL_BUFFER_SIZE,
            minimum_size: DEFAULT_MIN_BUFFER_SIZE,
            capacity: DEFAULT_INITIAL_BUFFER_SIZE,
        }
    }

    /// How many bytes the next read may ask the source for.
    pub fn request_size(&self) -> (r: usize)
        ensures
            r == self.remaining(),
    {
        self.capacity
    }

    /// Accounts for one successful read of `data` and hands the bytes on
    /// unchanged as the chunk the stream emits. The capacity shrinks by
    /// the bytes taken; once the remainder would fall under the low-water
    /// mark, the next read gets a fresh full buffer instead.
    pub fn absorb(&mut self, data: Vec<u8>) -> (chunk: Vec<u8>)
        requires
            old(self).wf(),
            0 < data@.len() <= old(self).remaining(),
        ensures
            final(self).wf(),
            chunk@ == data@,
            final(self).initial() == old(self).initial(),
            final(self).minimum() == old(self).minimum(),
            final(self).remaining() == if old(self).remaining() - data@.len() < old(
                self,
            ).minimum() {
                old(self).initial()
            } else {
                (old(self).remaining() - data@.len()) as nat
            },
    {
        let left = self.capacity - data.len();
        if left < self.minimum_size {
            self.capacity = self.initial_size;
        } else {
            self.capacity = left;
        }
        data
    }
}

} // verus!
