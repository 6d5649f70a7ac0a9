//! Sending one change to many lights, one after the other, until one fails.
//!
//! The caller makes each call and reports how it went; [`Batch::report`]
//! decides whether the next light is due.

use crate::commands::{HttpCall, HttpCallView};
use crate::error::ErrorKind;
use vstd::prelude::*;

verus! {

/// What the caller of a batch is to do next.
pub enum BatchStep<'a> {
    /// Make `call`, which is the one for `light`.
    Dispatch { light: u8, call: &'a HttpCall },
    /// Every light was served.
    Completed,
    /// The call for `light` failed with `error`; no later light is served.
    Stopped { light: u8, error: ErrorKind },
}

/// The mathematical value of a [`BatchStep`].
pub enum BatchStepView {
    Dispatch { light: u8, call: HttpCallView },
    Completed,
    Stopped { light: u8, error: ErrorKind },
}

impl<'a> View for BatchStep<'a> {
    type V = BatchStepView;

    open spec fn view(&self) -> BatchStepView {
        match self {
            BatchStep::Dispatch { light, call } => BatchStepView::Dispatch {
                light: *light,
                call: call@,
            },
            BatchStep::Completed => BatchStepView::Completed,
            BatchStep::Stopped { light, error } => BatchStepView::Stopped {
                light: *light,
                error: *error,
            },
        }
    }
}

/// The mathematical value of a [`Batch`]: the lights in the order they are
/// served, the call for each, how many were served, and the failure that
/// stopped the batch, if one did.
pub struct BatchView {
    pub lights: Seq<u8>,
    pub calls: Seq<HttpCallView>,
    pub cursor: nat,
    pub failure: Option<ErrorKind>,
}

impl BatchView {
    /// There is one call for each light, and a failure is that of a light.
    pub open spec fn well_formed(self) -> bool {
        &&& self.calls.len() == self.lights.len()
        &&& self.cursor <= self.lights.len()
        &&& self.failure is Some ==> self.cursor < self.lights.len()
    }

    /// What the batch asks of the caller.
    pub open spec fn pending(self) -> BatchStepView {
        match self.failure {
            Some(error) => BatchStepView::Stopped { light: self.lights[self.cursor as int], error },
            None => if self.cursor < self.lights.len() {
                BatchStepView::Dispatch {
                    light: self.lights[self.cursor as int],
                    call: self.calls[self.cursor as int],
                }
            } else {
                BatchStepView::Completed
            },
        }
    }

    /// The batch after the call that was due went as `outcome` says. Once
    /// the batch is over, a report changes nothing.
    pub open spec fn report(self, outcome: Result<(), ErrorKind>) -> BatchView {
        if self.failure is Some || self.cursor >= self.lights.len() {
            self
        } else {
            match outcome {
                Ok(_) => BatchView { cursor: self.cursor + 1, ..self },
                Err(error) => BatchView { failure: Some(error), ..self },
            }
        }
    }
}

/// What a batch does when its calls go as `outcomes` say.
pub struct BatchRun {
    /// The lights for which a call was made, in order.
    pub dispatched: Seq<u8>,
    /// How the batch stood when the outcomes ran out or it was over.
    pub end: BatchView,
}

/// Runs a batch: call number `j` goes as `outcomes[j]` says.
pub open spec fn batch_run(state: BatchView, outcomes: Seq<Result<(), ErrorKind>>) -> BatchRun
    decreases outcomes.len(),
{
    if outcomes.len() == 0 || !(state.pending() is Dispatch) {
        BatchRun { dispatched: Seq::empty(), end: state }
    } else {
        let rest = batch_run(state.report(outcomes[0]), outcomes.drop_first());
        BatchRun {
            dispatched: seq![state.lights[state.cursor as int]] + rest.dispatched,
            end: rest.end,
        }
    }
}

/// A change on its way to several lights.
pub struct Batch {
    lights: Vec<u8>,
    calls: Vec<HttpCall>,
    cursor: usize,
    failure: Option<ErrorKind>,
}

impl View for Batch {
    type V = BatchView;

    closed spec fn view(&self) -> BatchView {
        BatchView {
            lights: self.lights@,
            calls: Seq::new(self.calls.len() as nat, |i: int| self.calls[i]@),
            cursor: self.cursor as nat,
            failure: self.failure,
        }
    }
}

impl Batch {
    #[verifier::type_invariant]
    spec fn inv(self) -> bool {
        self@.well_formed()
    }

    /// A batch that serves `lights` in the order given, `calls[i]` being the
    /// call for `lights[i]`.
    pub fn new(lights: Vec<u8>, calls: Vec<HttpCall>) -> (r: Batch)
        requires
            lights.len() == calls.len(),
        ensures
            r@.lights == lights@,
            r@.calls == Seq::new(calls.len() as nat, |i: int| calls[i]@),
            r@.cursor == 0,
            r@.failure is None,
            r@.well_formed(),
    {
        Batch { lights, calls, cursor: 0, failure: None }
    }

    /// What the caller is to do now.
    pub fn pending(&self) -> (r: BatchStep<'_>)
        ensures
            r@ == self@.pending(),
    {
        proof {
            use_type_invariant(self);
        }
        match self.failure {
            Some(error) => BatchStep::Stopped { light: self.lights[self.cursor], error },
            None => if self.cursor < self.lights.len() {
                BatchStep::Dispatch {
                    light: self.lights[self.cursor],
                    call: &self.calls[self.cursor],
                }
            } else {
                BatchStep::Completed
            },
        }
    }

    /// Takes in how the call that was due went.
    pub fn report(self, outcome: Result<(), ErrorKind>) -> (r: Batch)
        ensures
            r@ == self@.report(outcome),
            r@.well_formed(),
    {
        proof {
            use_type_invariant(&self);
        }
        let Batch { lights, calls, cursor, failure } = self;
        if failure.is_some() || cursor >= lights.len() {
            Batch { lights, calls, cursor, failure }
        } else {
            match outcome {
                Ok(_) => Batch { lights, calls, cursor: cursor + 1, failure },
                Err(error) => Batch { lights, calls, cursor, failure: Some(error) },
            }
        }
    }
}

proof fn lemma_batch_succeeds(state: BatchView, outcomes: Seq<Result<(), ErrorKind>>)
    requires
        state.well_formed(),
        state.failure is None,
        outcomes.len() >= state.lights.len() - state.cursor,
        forall|j: int| 0 <= j < state.lights.len() - state.cursor ==> outcomes[j] is Ok,
    ensures
        batch_run(state, outcomes).dispatched == state.lights.skip(state.cursor as int),
        batch_run(state, outcomes).end.pending() is Completed,
    decreases outcomes.len(),
{
    if state.cursor >= state.lights.len() {
        assert(state.lights.skip(state.cursor as int) =~= Seq::<u8>::empty());
    } else {
        let next = state.report(outcomes[0]);
        let rest = outcomes.drop_first();
        assert forall|j: int| 0 <= j < next.lights.len() - next.cursor implies rest[j] is Ok by {
            assert(rest[j] == outcomes[j + 1]);
        }
        lemma_batch_succeeds(next, rest);
        assert(state.lights.skip(state.cursor as int) =~= seq![state.lights[state.cursor as int]]
            + state.lights.skip(next.cursor as int));
    }
}

proof fn lemma_batch_stops(
    state: BatchView,
    outcomes: Seq<Result<(), ErrorKind>>,
    good: nat,
    error: ErrorKind,
)
    requires
        state.well_formed(),
        state.failure is None,
        state.cursor + good < state.lights.len(),
        good < outcomes.len(),
        forall|j: int| 0 <= j < good ==> outcomes[j] is Ok,
        outcomes[good as int] == Err::<(), ErrorKind>(error),
    ensures
        batch_run(state, outcomes).dispatched == state.lights.subrange(
            state.cursor as int,
            (state.cursor + good + 1) as int,
        ),
        batch_run(state, outcomes).end.pending() == (BatchStepView::Stopped {
            light: state.lights[(state.cursor + good) as int],
            error,
        }),
    decreases good,
{
    let next = state.report(outcomes[0]);
    let rest = outcomes.drop_first();
    let from = state.cursor as int;
    if good == 0 {
        assert(next.failure == Some(error));
        assert(batch_run(next, rest).dispatched =~= Seq::<u8>::empty());
        assert(state.lights.subrange(from, from + 1) =~= seq![state.lights[from]]);
    } else {
        assert(outcomes[0] is Ok);
        assert forall|j: int| 0 <= j < good - 1 implies rest[j] is Ok by {
            assert(rest[j] == outcomes[j + 1]);
        }
        assert(rest[good - 1] == outcomes[good as int]);
        lemma_batch_stops(next, rest, (good - 1) as nat, error);
        assert(state.lights.subrange(from, from + good + 1) =~= seq![state.lights[from]]
            + state.lights.subrange(from + 1, from + good + 1));
    }
}

/// Where every call succeeds, a fresh batch makes one call for each light,
/// in the order of the lights, and completes.
pub proof fn law_batch_serves_all_in_order(
    lights: Seq<u8>,
    calls: Seq<HttpCallView>,
    outcomes: Seq<Result<(), ErrorKind>>,
)
    requires
        calls.len() == lights.len(),
        outcomes.len() >= lights.len(),
        forall|j: int| 0 <= j < lights.len() ==> outcomes[j] is Ok,
    ensures
        batch_run(BatchView { lights, calls, cursor: 0, failure: None }, outcomes).dispatched
            == lights,
        batch_run(
            BatchView { lights, calls, cursor: 0, failure: None },
            outcomes,
        ).end.pending() is Completed,
{
    let start = BatchView { lights, calls, cursor: 0, failure: None };
    lemma_batch_succeeds(start, outcomes);
    assert(lights.skip(0) =~= lights);
}

/// Where the first `good` calls succeed and the next one fails, a fresh
/// batch makes exactly `good + 1` calls, for the first `good + 1` lights in
/// order, then stops and names the light whose call failed. No later light
/// is served.
pub proof fn law_batch_stops_at_first_failure(
    lights: Seq<u8>,
    calls: Seq<HttpCallView>,
    outcomes: Seq<Result<(), ErrorKind>>,
    good: nat,
    error: ErrorKind,
)
    requires
        calls.len() == lights.len(),
        good < lights.len(),
        good < outcomes.len(),
        forall|j: int| 0 <= j < good ==> outcomes[j] is Ok,
        outcomes[good as int] == Err::<(), ErrorKind>(error),
    ensures
        batch_run(BatchView { lights, calls, cursor: 0, failure: None }, outcomes).dispatched
            == lights.take((good + 1) as int),
        batch_run(
            BatchView { lights, calls, cursor: 0, failure: None },
            outcomes,
        ).end.pending() == (BatchStepView::Stopped { light: lights[good as int], error }),
{
    let start = BatchView { lights, calls, cursor: 0, failure: None };
    lemma_batch_stops(start, outcomes, good, error);
    assert(lights.subrange(0, (good + 1) as int) =~= lights.take((good + 1) as int));
}

} // verus!
