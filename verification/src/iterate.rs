//! Escape-time iteration bookkeeping.
//!
//! Every formula variant runs the same loop shape: before each update
//! the running point is tested against the escape radius (squared
//! magnitude above four), and the pixel's count is the index of the
//! first step whose test fired, or the cap when none did within it.
//! This module decides and counts; the caller evaluates the formula on
//! its complex numbers and reports each test's outcome as a plain
//! `bool`.

use vstd::prelude::*;

verus! {

/// What the iteration loop does at the top of step `i`.
#[derive(Clone, Copy, PartialEq, Eq, Structural, Debug)]
pub enum StepOutcome {
    /// The escape test fired before update `i`: the pixel's count is `i`.
    Escaped(u32),
    /// The cap was reached without an escape: the count is the cap.
    Exhausted(u32),
    /// Run one more formula update and ask again.
    Continue,
}

/// One decision of the iteration loop: whether to stop at step `i`, and
/// with which count. The caller evaluates `escaped` as the escape test
/// on the running point before the update of step `i`.
pub fn advance_iteration(i: u32, max_iter: u32, escaped: bool) -> (o: StepOutcome)
    requires
        i <= max_iter,
    ensures
        i == max_iter ==> o == StepOutcome::Exhausted(max_iter),
        (i < max_iter && escaped) ==> o == StepOutcome::Escaped(i),
        (i < max_iter && !escaped) ==> o == StepOutcome::Continue,
{
    if i == max_iter {
        StepOutcome::Exhausted(max_iter)
    } else if escaped {
        StepOutcome::Escaped(i)
    } else {
        StepOutcome::Continue
    }
}

/// The index of the first `true` in `flags`, or `flags.len()` when none
/// occurs: the iteration count of a pixel whose escape tests came out
/// as `flags`.
pub open spec fn first_escape(flags: Seq<bool>) -> int
    decreases flags.len(),
{
    if flags.len() == 0 {
        0
    } else if flags[0] {
        0
    } else {
        1 + first_escape(flags.drop_first())
    }
}

/// `first_escape` is the least index holding `true` (or the length).
proof fn lemma_first_escape_at(flags: Seq<bool>, i: int)
    requires
        0 <= i <= flags.len(),
        forall|j: int| 0 <= j < i ==> !flags[j],
        i < flags.len() ==> flags[i],
    ensures
        first_escape(flags) == i,
    decreases i,
{
    if i == 0 {
    } else {
        assert(!flags[0]);
        assert(forall|j: int| 0 <= j < i - 1 ==> !flags.drop_first()[j]);
        assert(i - 1 < flags.drop_first().len() ==> flags.drop_first()[i - 1]);
        lemma_first_escape_at(flags.drop_first(), i - 1);
    }
}

/// For every trace of escape tests, the iteration count lies between
/// zero and the cap (the trace's length).
pub proof fn lemma_iteration_count_in_range(flags: Seq<bool>)
    ensures
        0 <= first_escape(flags) <= flags.len(),
    decreases flags.len(),
{
    if flags.len() == 0 {
    } else if flags[0] {
    } else {
        lemma_iteration_count_in_range(flags.drop_first());
    }
}

/// The iteration count of a pixel, given the outcome of the escape test
/// before each of the `max_iter` possible updates: the smallest index
/// whose test fired, or `max_iter` when none did.
pub fn escape_count(flags: &Vec<bool>, max_iter: u32) -> (n: u32)
    requires
        flags@.len() == max_iter,
    ensures
        n <= max_iter,
        n == first_escape(flags@),
        n < max_iter ==> flags@[n as int],
        forall|j: int| 0 <= j < n ==> !flags@[j],
{
    let mut i: u32 = 0;
    while i < max_iter
        invariant
            flags@.len() == max_iter,
            i <= max_iter,
            forall|j: int| 0 <= j < i ==> !flags@[j],
        decreases max_iter - i,
    {
        if flags[i as usize] {
            proof {
                lemma_first_escape_at(flags@, i as int);
            }
            return i;
        }
        i = i + 1;
    }
    proof {
        lemma_first_escape_at(flags@, max_iter as int);
    }
    max_iter
}

} // verus!
