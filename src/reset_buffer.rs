//! `ResetBuffer` is a fixed-size buffer that can be reset to the seed it was given.
use vstd::prelude::*;
use vstd::slice::slice_subrange;

use crate::undo_buffer::{range_mut, CapacityError};

verus! {

/// Size of the buffer, and so the largest seed it takes.
pub const BUFFER_SIZE: usize = 1024;

/// The abstract state of a `ResetBuffer`.
pub struct ResetView {
    /// Editable bytes, all `BUFFER_SIZE` of them.
    pub working: Seq<u8>,
    /// The stable state, all `BUFFER_SIZE` bytes.
    pub seed: Seq<u8>,
    /// End of the used data.
    pub end: nat,
}

impl ResetView {
    pub open spec fn wf(self) -> bool {
        &&& self.working.len() == BUFFER_SIZE
        &&& self.seed.len() == BUFFER_SIZE
        &&& self.end <= BUFFER_SIZE
    }

    /// The used data.
    pub open spec fn data(self) -> Seq<u8> {
        self.working.subrange(0, self.end as int)
    }
}

/// `bytes` written over the start of `dest`; the rest of `dest` is kept.
pub open spec fn overwrite(dest: Seq<u8>, bytes: Seq<u8>) -> Seq<u8> {
    bytes + dest.subrange(bytes.len() as int, dest.len() as int)
}

/// Copies `src` over the start of `dest`.
fn copy_into(dest: &mut Vec<u8>, src: &[u8])
    requires
        src@.len() <= old(dest)@.len(),
    ensures
        final(dest)@ == overwrite(old(dest)@, src@),
{
    let n = src.len();
    let mut i: usize = 0;
    while i < n
        invariant
            i <= n == src@.len() <= dest@.len(),
            dest@.len() == old(dest)@.len(),
            forall|j: int|
                0 <= j < dest@.len() ==> #[trigger] dest@[j] == if j < i {
                    src@[j]
                } else {
                    old(dest)@[j]
                },
        decreases n - i,
    {
        dest[i] = src[i];
        i = i + 1;
    }
    assert(dest@ =~= overwrite(old(dest)@, src@));
}

/// Fixed size buffer that can be reset to an original state.
pub struct ResetBuffer {
    /// Editable buffer
    buffer: Vec<u8>,
    /// Stable state of the buffer; changes only when a new seed is set
    seed: Vec<u8>,
    /// End of the used data
    end: usize,
}

impl View for ResetBuffer {
    type V = ResetView;

    closed spec fn view(&self) -> ResetView {
        ResetView { working: self.buffer@, seed: self.seed@, end: self.end as nat }
    }
}

impl ResetBuffer {
    /// A zeroed buffer holding no data.
    pub fn new() -> (r: ResetBuffer)
        ensures
            r@.wf(),
            r@.end == 0,
            r@.working == Seq::new(BUFFER_SIZE as nat, |i: int| 0u8),
            r@.seed == Seq::new(BUFFER_SIZE as nat, |i: int| 0u8),
    {
        let buffer = vec![0u8; BUFFER_SIZE];
        let seed = vec![0u8; BUFFER_SIZE];
        let r = ResetBuffer { buffer, seed, end: 0 };
        assert(r@.working =~= Seq::new(BUFFER_SIZE as nat, |i: int| 0u8));
        assert(r@.seed =~= Seq::new(BUFFER_SIZE as nat, |i: int| 0u8));
        r
    }

    /// A buffer whose data and seed are `seed`.
    pub fn from_seed(seed: &[u8]) -> (r: ResetBuffer)
        requires
            seed@.len() <= BUFFER_SIZE,
        ensures
            r@.wf(),
            r@.data() == seed@,
            r@.seed.subrange(0, seed@.len() as int) == seed@,
    {
        let mut buffer = ResetBuffer::new();
        let _ = buffer.seed(seed);
        buffer
    }

    /// Sets the data and the state that `reset` returns to: `buffer` is written over the
    /// start of both. Fails, changing nothing, when `buffer` is longer than `BUFFER_SIZE`.
    pub fn seed(&mut self, buffer: &[u8]) -> (r: Result<usize, CapacityError>)
        requires
            old(self)@.wf(),
        ensures
            final(self)@.wf(),
            buffer@.len() <= BUFFER_SIZE ==> r == Ok::<usize, CapacityError>(
                buffer@.len() as usize,
            ) && final(self)@ == (ResetView {
                working: overwrite(old(self)@.working, buffer@),
                seed: overwrite(old(self)@.seed, buffer@),
                end: buffer@.len(),
            }),
            buffer@.len() > BUFFER_SIZE ==> r == Err::<usize, CapacityError>(
                CapacityError { needed: buffer@.len() as usize, capacity: BUFFER_SIZE },
            ) && final(self)@ == old(self)@,
    {
        if buffer.len() > BUFFER_SIZE {
            return Err(CapacityError { needed: buffer.len(), capacity: BUFFER_SIZE });
        }
        copy_into(&mut self.buffer, buffer);
        copy_into(&mut self.seed, buffer);
        self.end = buffer.len();
        Ok(buffer.len())
    }

    /// Restores the whole buffer to the seed, discarding changes. Returns the number of
    /// bytes restored.
    pub fn reset(&mut self) -> (r: Result<usize, CapacityError>)
        requires
            old(self)@.wf(),
        ensures
            r == Ok::<usize, CapacityError>(BUFFER_SIZE),
            final(self)@ == (ResetView { working: old(self)@.seed, ..old(self)@ }),
    {
        copy_into(&mut self.buffer, self.seed.as_slice());
        assert(self.buffer@ =~= old(self)@.seed);
        Ok(BUFFER_SIZE)
    }

    /// The used data in its current state.
    pub fn read(&self) -> (r: &[u8])
        requires
            self@.wf(),
        ensures
            r@ == self@.data(),
    {
        slice_subrange(self.buffer.as_slice(), 0, self.end)
    }

    /// A mutable view of the used data.
    pub fn as_mut(&mut self) -> (r: &mut [u8])
        requires
            old(self)@.wf(),
        ensures
            r@ == old(self)@.data(),
            final(self)@ == (ResetView {
                working: final(r)@ + old(self)@.working.subrange(
                    old(self)@.end as int,
                    BUFFER_SIZE as int,
                ),
                ..old(self)@
            }),
    {
        let end = self.end;
        range_mut(self.buffer.as_mut_slice(), 0, end)
    }

    /// Writes as much of `buf` as fits over the start of the buffer, without changing
    /// the seed or the end of the data. Returns the number of bytes written.
    pub fn write(&mut self, buf: &[u8]) -> (r: Result<usize, CapacityError>)
        requires
            old(self)@.wf(),
        ensures
            final(self)@.wf(),
            buf@.len() <= BUFFER_SIZE ==> r == Ok::<usize, CapacityError>(buf@.len() as usize),
            buf@.len() > BUFFER_SIZE ==> r == Ok::<usize, CapacityError>(BUFFER_SIZE),
            final(self)@ == (ResetView {
                working: overwrite(
                    old(self)@.working,
                    if buf@.len() <= BUFFER_SIZE {
                        buf@
                    } else {
                        buf@.subrange(0, BUFFER_SIZE as int)
                    },
                ),
                ..old(self)@
            }),
    {
        let n: usize = if buf.len() <= BUFFER_SIZE { buf.len() } else { BUFFER_SIZE };
        let part = slice_subrange(buf, 0, n);
        assert(buf@.len() <= BUFFER_SIZE ==> part@ =~= buf@);
        copy_into(&mut self.buffer, part);
        Ok(n)
    }
}

} // verus!
