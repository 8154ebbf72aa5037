//! The machine capability: the pluggable side of the engine.  This
//! implementation is the recording personality — every hook keeps an exact
//! log or counter of what was requested and otherwise leaves values
//! untouched, so a host (or a test) can observe precisely which provenance
//! and bookkeeping requests one step made.

use vstd::prelude::*;
use crate::ir::{Failure, InterpError, RetagKind};
use crate::mem::{Immediate, Pointer};

verus! {

/// Saturating successor, used for the bookkeeping counters.
pub open spec fn bump(n: u64) -> u64 {
    if n < u64::MAX {
        (n + 1) as u64
    } else {
        n
    }
}

pub struct Machine {
    /// Retag kinds requested for freshly formed pointer values, in order.
    pub retag_value_log: Vec<RetagKind>,
    /// Retag kinds requested for the contents of places, in order.
    pub retag_place_log: Vec<RetagKind>,
    /// How many non-diverging intrinsics were delegated.
    pub intrinsic_count: u64,
    /// How many terminators were announced before evaluation.
    pub before_terminator_count: u64,
    /// Steps charged against the constant-evaluation budget.
    pub const_eval_steps: u64,
    /// The budget itself; exceeding it is a reportable failure.
    pub const_eval_limit: u64,
    /// Whether undefined-behavior checks are enabled for this personality.
    pub ub_checks: bool,
    /// Pointers backing the thread-local statics, by static id.
    pub thread_locals: Vec<Pointer>,
    /// The block most recently recorded for diagnostics after a terminator.
    pub last_block: Option<usize>,
}

impl Machine {
    pub fn new(const_eval_limit: u64, ub_checks: bool, thread_locals: Vec<Pointer>) -> (r:
        Machine)
        ensures
            r.retag_value_log@.len() == 0,
            r.retag_place_log@.len() == 0,
            r.intrinsic_count == 0,
            r.before_terminator_count == 0,
            r.const_eval_steps == 0,
            r.const_eval_limit == const_eval_limit,
            r.ub_checks == ub_checks,
            r.thread_locals == thread_locals,
            r.last_block is None,
    {
        Machine {
            retag_value_log: Vec::new(),
            retag_place_log: Vec::new(),
            intrinsic_count: 0,
            before_terminator_count: 0,
            const_eval_steps: 0,
            const_eval_limit,
            ub_checks,
            thread_locals,
            last_block: None,
        }
    }

    /// Hook run before every terminator evaluation.
    pub fn before_terminator(&mut self)
        ensures
            final(self).before_terminator_count == bump(old(self).before_terminator_count),
            *final(self) == (Machine {
                before_terminator_count: final(self).before_terminator_count,
                ..*old(self)
            }),
    {
        if self.before_terminator_count < u64::MAX {
            self.before_terminator_count = self.before_terminator_count + 1;
        }
    }

    /// A fresh reference or raw address was formed: record the requested
    /// retag kind.  This personality returns the value unchanged.
    pub fn retag_ptr_value(&mut self, kind: RetagKind, val: Immediate) -> (r: Immediate)
        ensures
            r == val,
            *final(self) == (Machine {
                retag_value_log: final(self).retag_value_log,
                ..*old(self)
            }),
            final(self).retag_value_log@ == old(self).retag_value_log@.push(kind),
    {
        self.retag_value_log.push(kind);
        val
    }

    /// Record a request to retag the contents of a place.
    pub fn retag_place_contents(&mut self, kind: RetagKind)
        ensures
            *final(self) == (Machine {
                retag_place_log: final(self).retag_place_log,
                ..*old(self)
            }),
            final(self).retag_place_log@ == old(self).retag_place_log@.push(kind),
    {
        self.retag_place_log.push(kind);
    }

    /// Resolve a thread-local static to its backing pointer.
    pub fn thread_local_static_pointer(&self, id: usize) -> (r: Result<Pointer, Failure>)
        ensures
            id < self.thread_locals@.len() ==> r == Ok::<Pointer, Failure>(
                self.thread_locals@[id as int],
            ),
            id >= self.thread_locals@.len() ==> r == Err::<Pointer, Failure>(
                Failure::Interp(InterpError::Unsupported),
            ),
    {
        if id < self.thread_locals.len() {
            Ok(self.thread_locals[id])
        } else {
            Err(Failure::Interp(InterpError::Unsupported))
        }
    }

    /// Charge one step against the constant-evaluation budget; exhausting
    /// the budget surfaces as a reportable failure, never a silent hang.
    pub fn increment_const_eval_counter(&mut self) -> (r: Result<(), Failure>)
        ensures
            old(self).const_eval_steps < old(self).const_eval_limit ==> (r == Ok::<(), Failure>(())
                && *final(self) == (Machine {
                const_eval_steps: (old(self).const_eval_steps + 1) as u64,
                ..*old(self)
            })),
            old(self).const_eval_steps >= old(self).const_eval_limit ==> (r == Err::<(), Failure>(
                Failure::Interp(InterpError::ResourceExhausted),
            ) && *final(self) == *old(self)),
    {
        if self.const_eval_steps < self.const_eval_limit {
            self.const_eval_steps = self.const_eval_steps + 1;
            Ok(())
        } else {
            Err(Failure::Interp(InterpError::ResourceExhausted))
        }
    }

    /// Delegate a non-diverging intrinsic; this personality only counts it.
    pub fn emulate_nondiverging_intrinsic(&mut self, _id: u64) -> (r: Result<(), Failure>)
        ensures
            r == Ok::<(), Failure>(()),
            final(self).intrinsic_count == bump(old(self).intrinsic_count),
            *final(self) == (Machine {
                intrinsic_count: final(self).intrinsic_count,
                ..*old(self)
            }),
    {
        if self.intrinsic_count < u64::MAX {
            self.intrinsic_count = self.intrinsic_count + 1;
        }
        Ok(())
    }

    /// Record the block a frame stands at after a terminator, for
    /// diagnostics.
    pub fn note_location(&mut self, block: usize)
        ensures
            *final(self) == (Machine { last_block: Some(block), ..*old(self) }),
    {
        self.last_block = Some(block);
    }
}

} // verus!
