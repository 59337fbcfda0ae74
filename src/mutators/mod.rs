//! The available mutators, and `Mutation`, which binds one of them to an optional
//! sub-range of the bytes it works on.
//!
//! # Example
//! ```
//! use byte_mutator::mutators::{Mutation, MutationType};
//!
//! let bitflipper = Mutation { range: None, mutation: MutationType::BitFlipper { width: 1 } };
//!
//! let mut bytes = b"foo".to_vec();
//!
//! bitflipper.mutate(&mut bytes, 0);
//!
//! assert_eq!(&bytes, b"goo");
//! ```
use vstd::prelude::*;

use crate::mutators::bitflipper::{flip_bit, BitFlipper};
use crate::undo_buffer::{lemma_expose_wf, range_mut, UndoBuffer, UndoView};

pub mod bitflipper;

verus! {

/// The kinds of mutator. Adding one means adding a variant here and an arm to
/// `MutationType::mutate`.
#[derive(Debug, Clone, Copy, PartialEq, Eq)]
pub enum MutationType {
    /// Walking bit flip. `width` is reserved for flipping a run of bits; a single bit is
    /// flipped whatever its value.
    BitFlipper { width: u8 },
}

/// What mutator `kind` makes of `bytes` at iteration `i`.
pub open spec fn apply_kind(kind: MutationType, bytes: Seq<u8>, i: int) -> Seq<u8> {
    match kind {
        MutationType::BitFlipper { .. } => flip_bit(bytes, i),
    }
}

/// The concrete `[start, end)` that an optional sub-range stands for in `len` bytes:
/// the whole of them for `None`; otherwise both ends clamped to `len`, with `end` never
/// below `start`.
pub open spec fn resolve_range(range: Option<(usize, usize)>, len: nat) -> (nat, nat) {
    match range {
        None => (0, len),
        Some((a, b)) => {
            let s: nat = if a > len { len } else { a as nat };
            let e: nat = if b > len { len } else if b < s { s } else { b as nat };
            (s, e)
        },
    }
}

/// `bytes` after mutation `m` ran at iteration `i`: only its resolved range changes.
pub open spec fn apply_mutation(bytes: Seq<u8>, m: Mutation, i: int) -> Seq<u8> {
    let (s, e) = resolve_range(m.range, bytes.len());
    bytes.subrange(0, s as int) + apply_kind(m.mutation, bytes.subrange(s as int, e as int), i)
        + bytes.subrange(e as int, bytes.len() as int)
}

/// `bytes` after each mutation of `muts` ran in order, all at iteration `i`.
pub open spec fn apply_mutations(bytes: Seq<u8>, muts: Seq<Mutation>, i: int) -> Seq<u8>
    decreases muts.len(),
{
    if muts.len() == 0 {
        bytes
    } else {
        apply_mutation(apply_mutations(bytes, muts.drop_last(), i), muts.last(), i)
    }
}

/// The buffer state after mutation `m` ran on it at iteration `i`.
pub open spec fn mutated_view(v: UndoView, m: Mutation, i: int) -> UndoView {
    let (s, e) = resolve_range(m.range, v.len());
    v.expose(s, e, apply_kind(m.mutation, v.working.subrange(s as int, e as int), i))
}

/// The buffer state after each mutation of `muts` ran on it in order at iteration `i`.
pub open spec fn mutated_view_all(v: UndoView, muts: Seq<Mutation>, i: int) -> UndoView
    decreases muts.len(),
{
    if muts.len() == 0 {
        v
    } else {
        mutated_view(mutated_view_all(v, muts.drop_last(), i), muts.last(), i)
    }
}

proof fn lemma_apply_kind_len(kind: MutationType, bytes: Seq<u8>, i: int)
    ensures
        apply_kind(kind, bytes, i).len() == bytes.len(),
{
}

proof fn lemma_resolve_range_bounds(range: Option<(usize, usize)>, len: nat)
    ensures
        resolve_range(range, len).0 <= resolve_range(range, len).1 <= len,
{
}

/// Running a mutation on a buffer changes its bytes as `apply_mutation` says, and keeps
/// it well formed.
pub proof fn lemma_mutated_view(v: UndoView, m: Mutation, i: int)
    requires
        v.wf(),
    ensures
        mutated_view(v, m, i).wf(),
        mutated_view(v, m, i).working == apply_mutation(v.working, m, i),
        mutated_view(v, m, i).original == v.original,
        mutated_view(v, m, i).capacity == v.capacity,
{
    let (s, e) = resolve_range(m.range, v.len());
    let written = apply_kind(m.mutation, v.working.subrange(s as int, e as int), i);
    lemma_resolve_range_bounds(m.range, v.len());
    lemma_apply_kind_len(m.mutation, v.working.subrange(s as int, e as int), i);
    assert(v.clamp_end(s, e) == e);
    lemma_expose_wf(v, s, e, written);
}

/// Running several mutations on a buffer changes its bytes as `apply_mutations` says, and
/// keeps it well formed.
pub proof fn lemma_mutated_view_all(v: UndoView, muts: Seq<Mutation>, i: int)
    requires
        v.wf(),
    ensures
        mutated_view_all(v, muts, i).wf(),
        mutated_view_all(v, muts, i).working == apply_mutations(v.working, muts, i),
        mutated_view_all(v, muts, i).original == v.original,
        mutated_view_all(v, muts, i).capacity == v.capacity,
    decreases muts.len(),
{
    if muts.len() > 0 {
        lemma_mutated_view_all(v, muts.drop_last(), i);
        lemma_mutated_view(mutated_view_all(v, muts.drop_last(), i), muts.last(), i);
    }
}

impl MutationType {
    /// Runs this mutator over the whole of `bytes` at iteration `i`.
    pub fn mutate(&self, bytes: &mut [u8], i: usize)
        ensures
            final(bytes)@ == apply_kind(*self, old(bytes)@, i as int),
    {
        match *self {
            MutationType::BitFlipper { width } => BitFlipper::mutate(bytes, i, width),
        }
    }
}

/// A single mutation, optionally scoped to only operate on a sub-range.
#[derive(Debug, Clone, Copy, PartialEq, Eq)]
pub struct Mutation {
    /// Optional sub-range (e.g. `Some((0, 3))` only mutates the first three bytes).
    /// Ends past the data are clamped.
    pub range: Option<(usize, usize)>,
    /// Type of mutator (e.g. `MutationType::BitFlipper`).
    pub mutation: MutationType,
}

impl Mutation {
    /// Creates a new `Mutation`, optionally scoped to operate only on a sub-range.
    pub fn new(mutator_type: MutationType, range: Option<(usize, usize)>) -> (r: Mutation)
        ensures
            r == (Mutation { range, mutation: mutator_type }),
    {
        Mutation { range, mutation: mutator_type }
    }

    /// The resolved `[start, end)` of this mutation in `len` bytes.
    fn resolve(&self, len: usize) -> (r: (usize, usize))
        ensures
            r.0 as nat == resolve_range(self.range, len as nat).0,
            r.1 as nat == resolve_range(self.range, len as nat).1,
    {
        match self.range {
            None => (0, len),
            Some((a, b)) => {
                let s: usize = if a > len { len } else { a };
                let e: usize = if b > len { len } else if b < s { s } else { b };
                (s, e)
            },
        }
    }

    /// Executes the mutation at iteration `i` on its range of `bytes`.
    pub fn mutate(&self, bytes: &mut [u8], i: usize)
        ensures
            final(bytes)@ == apply_mutation(old(bytes)@, *self, i as int),
    {
        let (s, e) = self.resolve(bytes.len());
        let part = range_mut(bytes, s, e);
        self.mutation.mutate(part, i);
    }

    /// Executes the mutation at iteration `i` on its range of `buffer`, which records that
    /// range as dirty.
    pub fn mutate_buffer(&self, buffer: &mut UndoBuffer, i: usize)
        requires
            old(buffer)@.wf(),
        ensures
            final(buffer)@ == mutated_view(old(buffer)@, *self, i as int),
            final(buffer)@.wf(),
            final(buffer)@.working == apply_mutation(old(buffer)@.working, *self, i as int),
    {
        proof {
            lemma_mutated_view(buffer@, *self, i as int);
        }
        let (s, e) = self.resolve(buffer.len());
        let part = buffer.get_mut_range(s, e);
        self.mutation.mutate(part, i);
    }
}

} // verus!
