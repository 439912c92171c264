//! The decisions of the escape-time iteration.
//!
//! Evaluating a point repeats `z <- z * z + c` and, after each step, tests whether
//! `z` has left the escape radius. The arithmetic is the caller's; this module
//! decides what happens next. The caller asks for a directive, performs it, and
//! reports what it observed:
//!
//! * while searching, at most `max_iterations - 1` steps are taken, each followed by
//!   the escape test;
//! * the first positive test is followed by two more steps, whose tests are ignored;
//! * a search that ends without a positive test classifies the point as interior.

use vstd::prelude::*;
use crate::binary64::Binary64;

verus! {

/// Number of unconditional steps taken after a point has escaped.
pub const SMOOTHING_STEPS: u64 = 2;

/// The outcome of evaluating one point of the plane.
#[derive(Clone, Copy, Debug, PartialEq, Eq, Structural)]
pub enum SmoothResult {
    /// The point stayed within the escape radius for the whole search.
    Interior,
    /// The point escaped; the payload is its smooth iteration count.
    Escaped(Binary64),
}

/// Where an evaluation stands.
#[derive(Clone, Copy, Debug, PartialEq, Eq, Structural)]
pub enum Phase {
    /// Stepping and testing for escape.
    Searching,
    /// Escaped; `remaining` unconditional steps are still owed.
    Smoothing { remaining: u64 },
    /// Finished: the search ended without an escape.
    Interior,
    /// Finished: escaped and smoothed.
    Escaped,
}

/// What the caller has to do next.
#[derive(Clone, Copy, Debug, PartialEq, Eq, Structural)]
pub enum Directive {
    /// Perform one step `z <- z * z + c` and report whether `z` is now outside the
    /// escape radius.
    Iterate,
    /// Stop: the point is classified as interior.
    Interior,
    /// Stop: the point escaped, and `iterations` steps were taken in all.
    Escaped { iterations: u64 },
}

/// The number of steps a search may take: `max_iterations - 1`, or none at all.
pub open spec fn search_limit(max_iterations: nat) -> nat {
    if max_iterations == 0 {
        0
    } else {
        (max_iterations - 1) as nat
    }
}

/// The mathematical state of an evaluation.
pub struct RunView {
    pub max_iterations: nat,
    /// Steps taken so far.
    pub iterations: nat,
    pub phase: Phase,
}

impl RunView {
    /// The state before any step.
    pub open spec fn start(max_iterations: nat) -> RunView {
        RunView {
            max_iterations,
            iterations: 0,
            phase: if search_limit(max_iterations) == 0 {
                Phase::Interior
            } else {
                Phase::Searching
            },
        }
    }

    /// The states an evaluation can reach.
    pub open spec fn wf(self) -> bool {
        let limit = search_limit(self.max_iterations);
        &&& self.max_iterations <= u32::MAX
        &&& match self.phase {
            Phase::Searching => self.iterations < limit,
            Phase::Smoothing { remaining } => {
                &&& 1 <= remaining <= SMOOTHING_STEPS
                &&& 1 + SMOOTHING_STEPS <= self.iterations + remaining
                &&& self.iterations + remaining <= limit + SMOOTHING_STEPS
            },
            Phase::Interior => self.iterations == limit,
            Phase::Escaped => {
                &&& 1 + SMOOTHING_STEPS <= self.iterations
                &&& self.iterations <= limit + SMOOTHING_STEPS
            },
        }
    }

    /// Whether the evaluation has reached a classification.
    pub open spec fn finished(self) -> bool {
        self.phase is Interior || self.phase is Escaped
    }

    /// What the caller has to do in this state.
    pub open spec fn directive(self) -> Directive {
        match self.phase {
            Phase::Searching => Directive::Iterate,
            Phase::Smoothing { .. } => Directive::Iterate,
            Phase::Interior => Directive::Interior,
            Phase::Escaped => Directive::Escaped { iterations: self.iterations as u64 },
        }
    }

    /// The state after one step whose escape test gave `escaped`. A finished
    /// evaluation stays as it is.
    pub open spec fn observe(self, escaped: bool) -> RunView {
        match self.phase {
            Phase::Searching => {
                let taken = self.iterations + 1;
                let phase = if escaped {
                    Phase::Smoothing { remaining: SMOOTHING_STEPS }
                } else if taken >= search_limit(self.max_iterations) {
                    Phase::Interior
                } else {
                    Phase::Searching
                };
                RunView { max_iterations: self.max_iterations, iterations: taken, phase }
            },
            Phase::Smoothing { remaining } => {
                let phase = if remaining <= 1 {
                    Phase::Escaped
                } else {
                    Phase::Smoothing { remaining: (remaining - 1) as u64 }
                };
                RunView {
                    max_iterations: self.max_iterations,
                    iterations: self.iterations + 1,
                    phase,
                }
            },
            Phase::Interior => self,
            Phase::Escaped => self,
        }
    }

    /// The state after the steps whose escape tests gave `trace`, in order.
    pub open spec fn run(self, trace: Seq<bool>) -> RunView
        decreases trace.len(),
    {
        if trace.len() == 0 {
            self
        } else {
            self.run(trace.drop_last()).observe(trace.last())
        }
    }
}

/// One evaluation in progress.
#[derive(Clone, Copy, Debug)]
pub struct EscapeRun {
    max_iterations: u32,
    iterations: u64,
    phase: Phase,
}

impl View for EscapeRun {
    type V = RunView;

    closed spec fn view(&self) -> RunView {
        RunView {
            max_iterations: self.max_iterations as nat,
            iterations: self.iterations as nat,
            phase: self.phase,
        }
    }
}

impl EscapeRun {
    #[verifier::type_invariant]
    spec fn well_formed(self) -> bool {
        self@.wf()
    }

    /// Begins the evaluation of a point.
    pub fn start(max_iterations: u32) -> (run: EscapeRun)
        ensures
            run@ == RunView::start(max_iterations as nat),
            run@.wf(),
    {
        let phase = if max_iterations <= 1 {
            Phase::Interior
        } else {
            Phase::Searching
        };
        EscapeRun { max_iterations, iterations: 0, phase }
    }

    /// What the caller has to do next.
    pub fn directive(&self) -> (d: Directive)
        ensures
            d == self@.directive(),
            self@.wf(),
    {
        proof {
            use_type_invariant(self);
        }
        match self.phase {
            Phase::Searching => Directive::Iterate,
            Phase::Smoothing { remaining: _ } => Directive::Iterate,
            Phase::Interior => Directive::Interior,
            Phase::Escaped => Directive::Escaped { iterations: self.iterations },
        }
    }

    /// Records one performed step and the result of its escape test.
    pub fn observe(&mut self, escaped: bool)
        ensures
            final(self)@ == old(self)@.observe(escaped),
            final(self)@.wf(),
    {
        proof {
            use_type_invariant(&*self);
            lemma_observe_preserves_wf(self@, escaped);
        }
        let max_iterations: u32 = self.max_iterations;
        let iterations: u64 = self.iterations;
        match self.phase {
            Phase::Searching => {
                let taken: u64 = iterations + 1;
                let phase = if escaped {
                    Phase::Smoothing { remaining: SMOOTHING_STEPS }
                } else if taken >= max_iterations as u64 - 1 {
                    Phase::Interior
                } else {
                    Phase::Searching
                };
                *self = EscapeRun { max_iterations, iterations: taken, phase };
            },
            Phase::Smoothing { remaining } => {
                let phase = if remaining <= 1 {
                    Phase::Escaped
                } else {
                    Phase::Smoothing { remaining: remaining - 1 }
                };
                *self = EscapeRun { max_iterations, iterations: iterations + 1, phase };
            },
            Phase::Interior => {},
            Phase::Escaped => {},
        }
    }

    /// Records one performed step by the squared magnitude that `z` has after it:
    /// the point has escaped when that magnitude is greater than the square of the
    /// escape radius. A magnitude that is not a number is not greater than anything.
    pub fn observe_magnitude(&mut self, squared_magnitude: Binary64, squared_radius: Binary64)
        ensures
            final(self)@ == old(self)@.observe(squared_radius@.lt(squared_magnitude@)),
            final(self)@.wf(),
    {
        let escaped = squared_radius.lt(&squared_magnitude);
        self.observe(escaped);
    }

    /// The number of steps recorded so far.
    pub fn iterations(&self) -> (n: u64)
        ensures
            n == self@.iterations,
            n <= self@.max_iterations + 1,
    {
        proof {
            use_type_invariant(self);
        }
        self.iterations
    }

    /// The iteration bound this evaluation was started with.
    pub fn max_iterations(&self) -> (n: u32)
        ensures
            n == self@.max_iterations,
    {
        self.max_iterations
    }

    /// Whether a classification has been reached.
    pub fn is_finished(&self) -> (r: bool)
        ensures
            r == self@.finished(),
    {
        match self.phase {
            Phase::Interior => true,
            Phase::Escaped => true,
            _ => false,
        }
    }
}

/// Every step leads from a reachable state to a reachable state.
pub proof fn lemma_observe_preserves_wf(state: RunView, escaped: bool)
    requires
        state.wf(),
    ensures
        state.observe(escaped).wf(),
        state.observe(escaped).max_iterations == state.max_iterations,
{
}

/// An evaluation never takes more than `max_iterations + 1` steps, however the
/// escape tests turn out; so the count plus one stays below the normalisation bound.
pub proof fn lemma_iterations_bounded(max_iterations: u32, trace: Seq<bool>)
    ensures
        RunView::start(max_iterations as nat).run(trace).wf(),
        RunView::start(max_iterations as nat).run(trace).max_iterations == max_iterations,
        RunView::start(max_iterations as nat).run(trace).iterations <= max_iterations + 1,
        RunView::start(max_iterations as nat).run(trace).iterations <= trace.len(),
    decreases trace.len(),
{
    if trace.len() > 0 {
        lemma_iterations_bounded(max_iterations, trace.drop_last());
        lemma_observe_preserves_wf(
            RunView::start(max_iterations as nat).run(trace.drop_last()),
            trace.last(),
        );
    }
}

/// The state after the first `steps` observations of a trace, in closed form: the
/// search goes on while no test was positive, ends as interior at the search limit,
/// and a first positive test at index `first` ends as escaped two steps later.
proof fn lemma_run_prefix(max_iterations: u32, trace: Seq<bool>, steps: nat)
    requires
        steps <= trace.len(),
    ensures
        ({
            let limit = search_limit(max_iterations as nat);
            let state = RunView::start(max_iterations as nat).run(trace.take(steps as int));
            &&& state.max_iterations == max_iterations
            &&& (forall|i: int| 0 <= i < steps && i < limit ==> !trace[i]) ==> {
                if steps < limit {
                    state.phase is Searching && state.iterations == steps
                } else {
                    state.phase is Interior && state.iterations == limit
                }
            }
            &&& forall|first: int|
                0 <= first < steps && first < limit && trace[first] && (forall|i: int|
                    0 <= i < first ==> !trace[i]) ==> {
                    if steps == first + 1 {
                        state.phase == (Phase::Smoothing { remaining: 2 }) && state.iterations
                            == steps
                    } else if steps == first + 2 {
                        state.phase == (Phase::Smoothing { remaining: 1 }) && state.iterations
                            == steps
                    } else {
                        state.phase is Escaped && state.iterations == first + 3
                    }
                }
        }),
    decreases steps,
{
    let limit = search_limit(max_iterations as nat);
    let begin = RunView::start(max_iterations as nat);
    if steps == 0 {
        assert(trace.take(0).len() == 0);
    } else {
        let before = (steps - 1) as nat;
        lemma_run_prefix(max_iterations, trace, before);
        let prefix = trace.take(steps as int);
        assert(prefix.drop_last() =~= trace.take(before as int));
        assert(prefix.last() == trace[before as int]);
        let earlier = begin.run(trace.take(before as int));
        let state = begin.run(prefix);
        assert(state == earlier.observe(trace[before as int]));
        if forall|i: int| 0 <= i < steps && i < limit ==> !trace[i] {
            assert(forall|i: int| 0 <= i < before && i < limit ==> !trace[i]);
        }
        assert forall|first: int|
            0 <= first < steps && first < limit && trace[first] && (forall|i: int|
                0 <= i < first ==> !trace[i]) implies {
            if steps == first + 1 {
                state.phase == (Phase::Smoothing { remaining: 2 }) && state.iterations == steps
            } else if steps == first + 2 {
                state.phase == (Phase::Smoothing { remaining: 1 }) && state.iterations == steps
            } else {
                state.phase is Escaped && state.iterations == first + 3
            }
        } by {
            if first == before {
                assert(forall|i: int| 0 <= i < before && i < limit ==> !trace[i]);
            }
        }
    }
}

/// The classification of a point is decided by its escape tests alone. Given at
/// least `max_iterations + 1` observations, the evaluation has finished:
///
/// * as interior, after `max_iterations - 1` steps, if none of the first
///   `max_iterations - 1` tests was positive;
/// * as escaped, after `first + 3` steps, if the test at index `first` was the first
///   positive one among them (the step of index `first` is the `first + 1`-th, and
///   two more follow).
pub proof fn lemma_run_classifies(max_iterations: u32, trace: Seq<bool>)
    requires
        trace.len() >= max_iterations + 1,
    ensures
        ({
            let limit = search_limit(max_iterations as nat);
            let end = RunView::start(max_iterations as nat).run(trace);
            &&& end.finished()
            &&& (forall|i: int| 0 <= i < limit ==> !trace[i]) ==> end.phase is Interior
                && end.iterations == limit
            &&& forall|first: int|
                0 <= first < limit && trace[first] && (forall|i: int| 0 <= i < first ==> !trace[i])
                    ==> end.phase is Escaped && end.iterations == first + 3
        }),
{
    let limit = search_limit(max_iterations as nat);
    lemma_run_prefix(max_iterations, trace, trace.len());
    assert(trace.take(trace.len() as int) =~= trace);
    let end = RunView::start(max_iterations as nat).run(trace);
    if forall|i: int| 0 <= i < limit ==> !trace[i] {
        assert(end.phase is Interior);
    } else {
        let first = choose_first(trace, limit);
        assert(end.phase is Escaped);
    }
}

/// The index of the first positive test among the first `limit`, when there is one.
proof fn choose_first(trace: Seq<bool>, limit: nat) -> (first: int)
    requires
        limit <= trace.len(),
        exists|i: int| 0 <= i < limit && trace[i],
    ensures
        0 <= first < limit,
        trace[first],
        forall|i: int| 0 <= i < first ==> !trace[i],
    decreases limit,
{
    if exists|i: int| 0 <= i < limit - 1 && trace[i] {
        choose_first(trace, (limit - 1) as nat)
    } else {
        (limit - 1) as int
    }
}

} // verus!
