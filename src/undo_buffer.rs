//! `UndoBuffer` exposes an undo interface over a bounded byte buffer.
//!
//! It keeps two copies of the seed: a pristine one that never changes and a working one
//! that callers may write through the mutable views it hands out. Every such view widens
//! the recorded dirty range, so `undo` only has to copy that range back from the pristine
//! copy to restore the seed exactly.
use vstd::prelude::*;
use vstd::slice::slice_to_vec;

verus! {

/// Returned when a seed does not fit in the capacity asked for.
#[derive(Debug, Clone, Copy, PartialEq, Eq)]
pub struct CapacityError {
    /// Length of the rejected seed.
    pub needed: usize,
    /// Capacity that it had to fit in.
    pub capacity: usize,
}

/// The abstract state of an `UndoBuffer`.
pub struct UndoView {
    /// Current, writable contents.
    pub working: Seq<u8>,
    /// The seed, as given at construction.
    pub original: Seq<u8>,
    /// Half-open range exposed for writing since construction or the last undo.
    pub dirty: Option<(nat, nat)>,
    /// Largest seed the buffer accepts.
    pub capacity: nat,
}

pub open spec fn min_nat(a: nat, b: nat) -> nat {
    if a <= b { a } else { b }
}

pub open spec fn max_nat(a: nat, b: nat) -> nat {
    if a >= b { a } else { b }
}

impl UndoView {
    /// The state right after construction from `seed`.
    pub open spec fn fresh(seed: Seq<u8>, capacity: nat) -> UndoView {
        UndoView { working: seed, original: seed, dirty: None, capacity }
    }

    pub open spec fn len(self) -> nat {
        self.working.len()
    }

    /// Whether byte `k` lies in the dirty range.
    pub open spec fn covers(self, k: int) -> bool {
        match self.dirty {
            Some((s, e)) => s <= k < e,
            None => false,
        }
    }

    /// Every byte outside the dirty range still holds the seed's value.
    pub open spec fn wf(self) -> bool {
        &&& self.working.len() == self.original.len()
        &&& self.original.len() <= self.capacity
        &&& match self.dirty {
            Some((s, e)) => s <= e <= self.working.len(),
            None => true,
        }
        &&& forall|k: int|
            0 <= k < self.working.len() && !self.covers(k) ==> #[trigger] self.working[k]
                == self.original[k]
    }

    /// End of the range that a request for `[start, end)` exposes: `end` is clamped to
    /// the buffer, and never falls below `start`.
    pub open spec fn clamp_end(self, start: nat, end: nat) -> nat {
        if end > self.len() {
            self.len()
        } else if end < start {
            start
        } else {
            end
        }
    }

    /// The dirty range widened to also cover `[start, end)`.
    pub open spec fn widen(self, start: nat, end: nat) -> Option<(nat, nat)> {
        match self.dirty {
            Some((s, e)) => Some((min_nat(s, start), max_nat(e, end))),
            None => Some((start, end)),
        }
    }

    /// The state after `[start, end)` was exposed (with `end` clamped) and the exposed
    /// bytes were left holding `written`.
    pub open spec fn expose(self, start: nat, end: nat, written: Seq<u8>) -> UndoView {
        let e = self.clamp_end(start, end);
        UndoView {
            working: self.working.subrange(0, start as int) + written + self.working.subrange(
                e as int,
                self.len() as int,
            ),
            dirty: self.widen(start, e),
            ..self
        }
    }

    /// The state after an undo: the dirty range is copied back from the seed.
    pub open spec fn undone(self) -> UndoView {
        match self.dirty {
            Some((s, e)) => UndoView {
                working: self.working.subrange(0, s as int) + self.original.subrange(
                    s as int,
                    e as int,
                ) + self.working.subrange(e as int, self.len() as int),
                dirty: None,
                ..self
            },
            None => self,
        }
    }
}

/// Exposing a range keeps the state well formed once the caller has written back as many
/// bytes as were exposed.
pub proof fn lemma_expose_wf(v: UndoView, start: nat, end: nat, written: Seq<u8>)
    requires
        v.wf(),
        start <= v.len(),
        written.len() == v.clamp_end(start, end) - start,
    ensures
        v.expose(start, end, written).wf(),
        v.expose(start, end, written).len() == v.len(),
        v.expose(start, end, written).original == v.original,
        v.expose(start, end, written).capacity == v.capacity,
{
    let e = v.clamp_end(start, end);
    let w = v.expose(start, end, written);
    assert forall|k: int| 0 <= k < w.working.len() && !w.covers(k) implies #[trigger] w.working[k]
        == w.original[k] by {
        if k < start {
            assert(w.working[k] == v.working[k]);
        } else {
            assert(k >= e);
            assert(w.working[k] == v.working[k]);
        }
        assert(!v.covers(k));
    }
}

/// An undo leaves the buffer holding exactly the seed, with nothing dirty.
pub proof fn lemma_undo_restores(v: UndoView)
    requires
        v.wf(),
    ensures
        v.undone().working == v.original,
        v.undone().original == v.original,
        v.undone().dirty is None,
        v.undone().capacity == v.capacity,
        v.undone().wf(),
{
    let u = v.undone();
    assert(u.working =~= v.original);
}

/// Round trip: whatever is written through one exposed range of a buffer built from
/// `seed`, undoing afterwards gives back exactly `seed`.
pub proof fn lemma_round_trip(
    seed: Seq<u8>,
    capacity: nat,
    start: nat,
    end: nat,
    written: Seq<u8>,
)
    requires
        seed.len() <= capacity,
        start <= seed.len(),
        written.len() == UndoView::fresh(seed, capacity).clamp_end(start, end) - start,
    ensures
        UndoView::fresh(seed, capacity).expose(start, end, written).undone().working == seed,
{
    let v = UndoView::fresh(seed, capacity);
    lemma_expose_wf(v, start, end, written);
    lemma_undo_restores(v.expose(start, end, written));
}

/// Two disjoint ranges exposed one after the other: no byte outside them changes, and an
/// undo restores both.
pub proof fn lemma_disjoint_ranges(
    seed: Seq<u8>,
    capacity: nat,
    a: nat,
    b: nat,
    first: Seq<u8>,
    c: nat,
    d: nat,
    second: Seq<u8>,
)
    requires
        seed.len() <= capacity,
        a <= b <= seed.len(),
        c <= d <= seed.len(),
        b <= c || d <= a,
        first.len() == b - a,
        second.len() == d - c,
    ensures
        ({
            let twice = UndoView::fresh(seed, capacity).expose(a, b, first).expose(c, d, second);
            &&& forall|k: int|
                0 <= k < seed.len() && !(a <= k < b) && !(c <= k < d) ==> #[trigger] twice.working[k]
                    == seed[k]
            &&& twice.undone().working == seed
        }),
{
    let v = UndoView::fresh(seed, capacity);
    let once = v.expose(a, b, first);
    let twice = once.expose(c, d, second);
    assert forall|k: int|
        0 <= k < seed.len() && !(a <= k < b) && !(c <= k < d) implies #[trigger] twice.working[k]
        == seed[k] by {
        assert(twice.working[k] == once.working[k]);
        assert(once.working[k] == seed[k]);
    }
    lemma_expose_wf(v, a, b, first);
    lemma_expose_wf(once, c, d, second);
    lemma_undo_restores(twice);
}

/// Bounded byte buffer with a pristine copy and a writable copy. Tracks which region of
/// the buffer has been exposed for changes and can undo those changes.
#[derive(Debug, Clone)]
pub struct UndoBuffer {
    buffer: Vec<u8>,
    original: Vec<u8>,
    capacity: usize,
    dirty: Option<(usize, usize)>,
}

impl View for UndoBuffer {
    type V = UndoView;

    closed spec fn view(&self) -> UndoView {
        UndoView {
            working: self.buffer@,
            original: self.original@,
            dirty: match self.dirty {
                Some((s, e)) => Some((s as nat, e as nat)),
                None => None,
            },
            capacity: self.capacity as nat,
        }
    }
}

/// A mutable view of `bytes[start..end]`; what is written through it lands in `bytes`.
pub(crate) fn range_mut(bytes: &mut [u8], start: usize, end: usize) -> (r: &mut [u8])
    requires
        start <= end <= old(bytes)@.len(),
    ensures
        r@ == old(bytes)@.subrange(start as int, end as int),
        final(bytes)@ == old(bytes)@.subrange(0, start as int) + final(r)@ + old(bytes)@.subrange(
            end as int,
            old(bytes)@.len() as int,
        ),
{
    let len = bytes.len();
    let (head, rest) = bytes.split_at_mut(start);
    let (mid, tail) = rest.split_at_mut(end - start);
    assert(has_resolved(head));
    assert(has_resolved(tail));
    assert(final(head)@ == head@);
    assert(final(tail)@ == tail@);
    assert(tail@ =~= old(bytes)@.subrange(end as int, len as int));
    assert(head@ =~= old(bytes)@.subrange(0, start as int));
    mid
}

impl UndoBuffer {
    /// Copies `buf` into the pristine and the writable copy. Fails when `buf` is longer
    /// than `capacity`.
    pub fn new(buf: &[u8], capacity: usize) -> (r: Result<UndoBuffer, CapacityError>)
        ensures
            buf@.len() <= capacity ==> (r matches Ok(b) && b@ == UndoView::fresh(
                buf@,
                capacity as nat,
            )),
            buf@.len() > capacity ==> r == Err::<UndoBuffer, CapacityError>(
                CapacityError { needed: buf@.len() as usize, capacity },
            ),
    {
        if buf.len() > capacity {
            return Err(CapacityError { needed: buf.len(), capacity });
        }
        let original = slice_to_vec(buf);
        let buffer = slice_to_vec(buf);
        Ok(UndoBuffer { buffer, original, capacity, dirty: None })
    }

    /// An empty buffer that accepts no seed bytes.
    pub(crate) fn empty() -> (r: UndoBuffer)
        ensures
            r@ == UndoView::fresh(Seq::empty(), 0),
    {
        UndoBuffer { buffer: Vec::new(), original: Vec::new(), capacity: 0, dirty: None }
    }

    /// Used length of the writable buffer.
    pub fn len(&self) -> (r: usize)
        ensures
            r == self@.len(),
    {
        self.buffer.len()
    }

    /// Whether the writable buffer is empty.
    pub fn is_empty(&self) -> (r: bool)
        ensures
            r == (self@.len() == 0),
    {
        self.buffer.len() == 0
    }

    /// Returns a mutable view of the whole writable buffer and marks all of it dirty.
    pub fn get_mut(&mut self) -> (r: &mut [u8])
        requires
            old(self)@.wf(),
        ensures
            r@ == old(self)@.working,
            final(self)@ == old(self)@.expose(0, old(self)@.len(), final(r)@),
    {
        let end = self.buffer.len();
        self.get_mut_range(0, end)
    }

    /// Returns a mutable view of `[start, end)`, with `end` clamped to the buffer, and
    /// widens the dirty range to cover it.
    pub fn get_mut_range(&mut self, start: usize, end: usize) -> (r: &mut [u8])
        requires
            old(self)@.wf(),
            start <= old(self)@.len(),
        ensures
            r@ == old(self)@.working.subrange(
                start as int,
                old(self)@.clamp_end(start as nat, end as nat) as int,
            ),
            final(self)@ == old(self)@.expose(start as nat, end as nat, final(r)@),
    {
        let len = self.buffer.len();
        let e: usize = if end > len {
            len
        } else if end < start {
            start
        } else {
            end
        };
        self.dirty = match self.dirty {
            Some((s, d)) => Some((if s <= start { s } else { start }, if d >= e { d } else { e })),
            None => Some((start, e)),
        };
        range_mut(self.buffer.as_mut_slice(), start, e)
    }

    /// The writable buffer in its current state.
    pub fn read(&self) -> (r: &[u8])
        ensures
            r@ == self@.working,
    {
        self.buffer.as_slice()
    }

    /// Copies the dirty range back from the pristine copy and clears it.
    pub fn undo(&mut self)
        requires
            old(self)@.wf(),
        ensures
            final(self)@ == old(self)@.undone(),
    {
        let (start, end) = match self.dirty {
            None => {
                return;
            },
            Some(range) => range,
        };
        proof {
            assert(self.original@.len() == self.buffer@.len());
        }
        let mut k: usize = start;
        while k < end
            invariant
                start <= k <= end <= self.buffer@.len(),
                self.original@ == old(self).original@,
                self.buffer@.len() == old(self).buffer@.len(),
                self.original@.len() == self.buffer@.len(),
                self.capacity == old(self).capacity,
                self.dirty == old(self).dirty,
                forall|j: int|
                    0 <= j < self.buffer@.len() ==> #[trigger] self.buffer@[j] == if start <= j
                        < k {
                        self.original@[j]
                    } else {
                        old(self).buffer@[j]
                    },
            decreases end - k,
        {
            let b = self.original[k];
            self.buffer[k] = b;
            k = k + 1;
        }
        self.dirty = None;
        assert(self.buffer@ =~= old(self)@.undone().working);
    }
}

} // verus!
