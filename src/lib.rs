//! # Byte Mutator
//!
//! `byte_mutator` defines a set of rules by which to mutate byte arrays. It has two main
//! primitives: `Stage` and `Mutation`. A `Stage` groups mutations that all run on every
//! step, together with an iteration counter and a rule for when the stage is finished;
//! a `ByteMutator` owns a seed buffer and runs a queue of stages over it, one step at a
//! time, undoing the previous step's changes before each new one.
use vstd::prelude::*;

pub use crate::fuzz_config::FuzzConfig;
pub use crate::mutators::{Mutation, MutationType};
pub use crate::undo_buffer::{CapacityError, UndoBuffer};

use crate::mutators::{apply_mutations, lemma_mutated_view_all, mutated_view_all};
use crate::undo_buffer::{lemma_undo_restores, UndoView};

pub mod config;
pub mod fuzz_config;
pub mod mutators;
pub mod reset_buffer;
pub mod undo_buffer;

verus! {

/// Used to limit the number of iterations in a `Stage`.
#[derive(Debug, Clone, Copy, PartialEq, Eq)]
pub enum Iterations {
    /// One iteration per bit of the buffer
    Bits,
    /// One iteration per byte of the buffer
    Bytes,
    /// Goes forever
    Unlimited,
    /// Fixed number of iterations
    Limited(usize),
}

/// Used to define groups of mutations, and how many mutations should be performed.
#[derive(Debug, Clone)]
pub struct Stage {
    /// Current number of iterations.
    /// This can start at > 0 if you want to reproduce something from an earlier run.
    pub count: usize,
    /// When the stage is finished.
    pub iterations: Iterations,
    /// Group of mutations, all of which are performed every time.
    pub mutations: Vec<Mutation>,
}

/// Whether a stage with counter `count` and policy `iterations` is finished, on a buffer
/// of `len` bytes.
pub open spec fn stage_done(count: int, iterations: Iterations, len: nat) -> bool {
    match iterations {
        Iterations::Unlimited => false,
        Iterations::Limited(n) => count >= n,
        Iterations::Bits => count >= len * 8,
        Iterations::Bytes => count >= len,
    }
}

/// `s` with its counter advanced by one.
pub open spec fn advanced(s: Stage) -> Stage {
    Stage { count: (s.count + 1) as usize, ..s }
}

proof fn lemma_bits_done(count: nat, len: nat)
    ensures
        (count / 8 >= len) == (count >= len * 8),
{
    assert((count / 8 >= len) == (count >= len * 8)) by (nonlinear_arith);
}

impl Stage {
    /// A stage starting at `count`; `max` of `None` runs forever, `Some(n)` runs until
    /// the counter reaches `n`.
    pub fn new(count: usize, mutations: Vec<Mutation>, max: Option<usize>) -> (r: Stage)
        ensures
            r.count == count,
            r.mutations == mutations,
            r.iterations == match max {
                None => Iterations::Unlimited,
                Some(n) => Iterations::Limited(n),
            },
    {
        let iterations = match max {
            None => Iterations::Unlimited,
            Some(n) => Iterations::Limited(n),
        };
        Stage { count, iterations, mutations }
    }

    /// Returns whether the stage is complete, on a buffer of `len` bytes.
    pub fn is_done(&self, len: usize) -> (r: bool)
        ensures
            r == stage_done(self.count as int, self.iterations, len as nat),
    {
        match self.iterations {
            Iterations::Unlimited => false,
            Iterations::Limited(n) => self.count >= n,
            Iterations::Bits => {
                proof {
                    lemma_bits_done(self.count as nat, len as nat);
                }
                self.count / 8 >= len
            },
            Iterations::Bytes => self.count >= len,
        }
    }

    /// Advances the internal state of the `Stage`.
    pub fn next(&mut self)
        requires
            old(self).count < usize::MAX,
        ensures
            *final(self) == advanced(*old(self)),
    {
        self.count = self.count + 1;
    }

    /// Adds a mutation after those already in the stage.
    pub fn add_mutation(&mut self, mutation: Mutation)
        ensures
            final(self).count == old(self).count,
            final(self).iterations == old(self).iterations,
            final(self).mutations@ == old(self).mutations@.push(mutation),
    {
        self.mutations.push(mutation);
    }
}

impl Default for Stage {
    /// A stage with no mutations and unlimited iterations.
    fn default() -> (r: Stage)
        ensures
            r.count == 0,
            r.iterations == Iterations::Unlimited,
            r.mutations@ == Seq::<Mutation>::empty(),
    {
        Stage::new(0, Vec::new(), None)
    }
}

/// The stage queue after one tick on a buffer of `len` bytes: the front stage advances,
/// and leaves the queue if it is then done.
pub open spec fn next_queue(stages: Seq<Stage>, len: nat) -> Seq<Stage> {
    if stages.len() == 0 {
        stages
    } else {
        let s = advanced(stages[0]);
        if stage_done(s.count as int, s.iterations, len) {
            stages.drop_first()
        } else {
            stages.update(0, s)
        }
    }
}

/// The buffer after one tick: the previous tick is undone, then the front stage's
/// mutations run at its counter. When that stage finishes and another follows, the
/// buffer is undone again so that the next stage starts from the seed.
pub open spec fn next_buffer(stages: Seq<Stage>, b: UndoView) -> UndoView {
    if stages.len() == 0 {
        b
    } else {
        let s = stages[0];
        let m = mutated_view_all(b.undone(), s.mutations@, s.count as int);
        let a = advanced(s);
        if stage_done(a.count as int, a.iterations, b.len()) && stages.len() > 1 {
            m.undone()
        } else {
            m
        }
    }
}

/// The stage queue after `k` ticks on a buffer of `len` bytes.
pub open spec fn queue_after(stages: Seq<Stage>, len: nat, k: nat) -> Seq<Stage>
    decreases k,
{
    if k == 0 {
        stages
    } else {
        next_queue(queue_after(stages, len, (k - 1) as nat), len)
    }
}

/// Before its limit is reached, a limited front stage only counts up.
proof fn lemma_limited_front(stages: Seq<Stage>, len: nat, n: usize, k: nat)
    requires
        stages.len() > 0,
        stages[0].iterations == Iterations::Limited(n),
        stages[0].count + k < n,
    ensures
        queue_after(stages, len, k) == stages.update(
            0,
            Stage { count: (stages[0].count + k) as usize, ..stages[0] },
        ),
    decreases k,
{
    if k > 0 {
        lemma_limited_front(stages, len, n, (k - 1) as nat);
        let prev = stages.update(
            0,
            Stage { count: (stages[0].count + k - 1) as usize, ..stages[0] },
        );
        assert(prev.update(0, advanced(prev[0])) =~= stages.update(
            0,
            Stage { count: (stages[0].count + k) as usize, ..stages[0] },
        ));
    }
}

/// Stage exhaustion: a front stage limited to `n` iterations whose counter starts at
/// `c < n` stays in the queue for the first `n - c - 1` ticks and leaves it on tick
/// `n - c`, when the queue shrinks by exactly one.
pub proof fn lemma_limited_stage_exhaustion(stages: Seq<Stage>, len: nat, n: usize)
    requires
        stages.len() > 0,
        stages[0].iterations == Iterations::Limited(n),
        stages[0].count < n,
    ensures
        forall|k: nat|
            k < n - stages[0].count ==> (#[trigger] queue_after(stages, len, k)).len()
                == stages.len() && queue_after(stages, len, k)[0].count == stages[0].count + k,
        queue_after(stages, len, (n - stages[0].count) as nat) == stages.drop_first(),
{
    let c = stages[0].count;
    assert forall|k: nat| k < n - c implies (#[trigger] queue_after(stages, len, k)).len()
        == stages.len() && queue_after(stages, len, k)[0].count == c + k by {
        lemma_limited_front(stages, len, n, k);
    }
    let last = (n - c - 1) as nat;
    lemma_limited_front(stages, len, n, last);
    let prev = queue_after(stages, len, last);
    assert(prev.drop_first() =~= stages.drop_first());
}

/// A seed buffer and a queue of stages to run over it.
#[derive(Debug, Clone)]
pub struct ByteMutator {
    /// Queue of outstanding stages, ordered from first to last. Drains from the front.
    stages: Vec<Stage>,
    /// The seed and its current mutation.
    buffer: UndoBuffer,
}

impl ByteMutator {
    /// The outstanding stages, the active one first.
    pub closed spec fn stages(&self) -> Seq<Stage> {
        self.stages@
    }

    /// The state of the seed buffer.
    pub closed spec fn buffer(&self) -> UndoView {
        self.buffer@
    }

    pub open spec fn wf(&self) -> bool {
        self.buffer().wf()
    }

    /// Creates a new `ByteMutator` with no stages over an empty seed.
    pub fn new() -> (r: ByteMutator)
        ensures
            r.stages() == Seq::<Stage>::empty(),
            r.buffer() == UndoView::fresh(Seq::empty(), 0),
            r.wf(),
    {
        ByteMutator { stages: Vec::new(), buffer: UndoBuffer::empty() }
    }

    /// Creates a `ByteMutator` with no stages over `seed`. Fails when `seed` is longer
    /// than `capacity`.
    pub fn from_seed(seed: &[u8], capacity: usize) -> (r: Result<ByteMutator, CapacityError>)
        ensures
            seed@.len() <= capacity ==> (r matches Ok(m) && m.stages() == Seq::<Stage>::empty()
                && m.buffer() == UndoView::fresh(seed@, capacity as nat) && m.wf()),
            seed@.len() > capacity ==> r == Err::<ByteMutator, CapacityError>(
                CapacityError { needed: seed@.len() as usize, capacity },
            ),
    {
        match UndoBuffer::new(seed, capacity) {
            Ok(buffer) => Ok(ByteMutator { stages: Vec::new(), buffer }),
            Err(e) => Err(e),
        }
    }

    /// Replaces the stage queue with `stages`.
    pub fn with_stages(self, stages: Vec<Stage>) -> (r: ByteMutator)
        ensures
            r.stages() == stages@,
            r.buffer() == self.buffer(),
    {
        let mut this = self;
        this.stages = stages;
        this
    }

    /// Creates a new `ByteMutator` over an empty seed and takes the `stages` configured
    /// in `config`.
    pub fn new_from_config(config: FuzzConfig) -> (r: ByteMutator)
        ensures
            r.stages() == config.stages@,
            r.buffer() == UndoView::fresh(Seq::empty(), 0),
            r.wf(),
    {
        ByteMutator { stages: config.stages, buffer: UndoBuffer::empty() }
    }

    /// Number of outstanding stages.
    pub fn remaining_stages(&self) -> (r: usize)
        ensures
            r == self.stages().len(),
    {
        self.stages.len()
    }

    /// Adds a stage at the back of the queue.
    pub fn add_stage(&mut self, stage: Stage)
        ensures
            final(self).stages() == old(self).stages().push(stage),
            final(self).buffer() == old(self).buffer(),
    {
        self.stages.push(stage);
    }

    /// The buffer as the last step left it.
    pub fn read(&self) -> (r: &[u8])
        ensures
            r@ == self.buffer().working,
    {
        self.buffer.read()
    }

    /// Advances the mutation one step: undoes the previous step's changes, runs every
    /// mutation of the active stage at its counter, advances the counter, and drops the
    /// stage once it is done. With no stages left this does nothing.
    pub fn next(&mut self)
        requires
            old(self).wf(),
            old(self).stages().len() > 0 ==> old(self).stages()[0].count < usize::MAX,
        ensures
            final(self).wf(),
            final(self).stages() == next_queue(old(self).stages(), old(self).buffer().len()),
            final(self).buffer() == next_buffer(old(self).stages(), old(self).buffer()),
    {
        if self.stages.len() == 0 {
            return;
        }
        let ghost b0 = self.buffer@;
        proof {
            lemma_undo_restores(b0);
        }
        self.buffer.undo();
        let ghost b1 = self.buffer@;
        let count = self.stages[0].count;
        let n = self.stages[0].mutations.len();
        let ghost muts = self.stages@[0].mutations@;
        let mut k: usize = 0;
        while k < n
            invariant
                k <= n == muts.len(),
                muts == self.stages@[0].mutations@,
                self.stages@ == old(self).stages@,
                count == self.stages@[0].count,
                self.stages@.len() > 0,
                b1.wf(),
                self.buffer@ == mutated_view_all(b1, muts.take(k as int), count as int),
            decreases n - k,
        {
            proof {
                lemma_mutated_view_all(b1, muts.take(k as int), count as int);
                assert(muts.take(k + 1).drop_last() =~= muts.take(k as int));
            }
            let m = self.stages[0].mutations[k];
            m.mutate_buffer(&mut self.buffer, count);
            k = k + 1;
        }
        proof {
            assert(muts.take(n as int) =~= muts);
            lemma_mutated_view_all(b1, muts, count as int);
        }
        self.stages[0].next();
        let len = self.buffer.len();
        if self.stages[0].is_done(len) {
            self.stages.remove(0);
            if self.stages.len() > 0 {
                proof {
                    lemma_undo_restores(self.buffer@);
                }
                self.buffer.undo();
            }
        }
    }

    /// Runs every mutation of the active stage over `bytes`, at the stage's counter,
    /// without advancing it. With no stages this leaves `bytes` unchanged.
    pub fn mutate(&self, bytes: &mut [u8])
        ensures
            self.stages().len() == 0 ==> final(bytes)@ == old(bytes)@,
            self.stages().len() > 0 ==> final(bytes)@ == apply_mutations(
                old(bytes)@,
                self.stages()[0].mutations@,
                self.stages()[0].count as int,
            ),
    {
        if self.stages.len() == 0 {
            return;
        }
        let stage = &self.stages[0];
        let ghost muts = stage.mutations@;
        let n = stage.mutations.len();
        let mut k: usize = 0;
        while k < n
            invariant
                k <= n == muts.len(),
                muts == stage.mutations@,
                bytes@ == apply_mutations(old(bytes)@, muts.take(k as int), stage.count as int),
            decreases n - k,
        {
            proof {
                assert(muts.take(k + 1).drop_last() =~= muts.take(k as int));
            }
            stage.mutations[k].mutate(bytes, stage.count);
            k = k + 1;
        }
        proof {
            assert(muts.take(n as int) =~= muts);
        }
    }
}

} // verus!
