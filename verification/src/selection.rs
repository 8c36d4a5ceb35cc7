//! The selection coordinator: a pure state machine that drives a bounded
//! interactive wait for a menu choice, scoped to one requester and one
//! channel, under a fixed 180-second deadline.

use vstd::prelude::*;

use crate::structs::SteamApp;

verus! {

/// Seconds a selection prompt stays open.
pub const SELECTION_TIMEOUT_SECS: u64 = 180;

/// A pending interactive selection among ranked candidates, scoped to the
/// requesting user and channel.
pub struct SelectionRequest {
    pub candidates: Vec<SteamApp>,
    pub issued_at: u64,
    pub requester: u64,
    pub channel: u64,
}

/// An occurrence the transport reports to a pending selection; times are
/// epoch seconds.
pub enum SelectionEvent {
    /// A menu choice made by `requester` in `channel` at time `at`,
    /// carrying the chosen menu position.
    Choice { requester: u64, channel: u64, index: usize, at: u64 },
    /// An explicit cancellation signal.
    Cancel { at: u64 },
    /// The clock reaching `at` with no interaction.
    Clock { at: u64 },
}

/// The terminal outcomes of a selection.
pub enum SelectionOutcome {
    Chosen(SteamApp),
    Cancelled,
    TimedOut,
}

impl Clone for SelectionOutcome {
    fn clone(&self) -> (r: Self)
        ensures
            r == *self,
    {
        match self {
            SelectionOutcome::Chosen(app) => SelectionOutcome::Chosen(app.clone()),
            SelectionOutcome::Cancelled => SelectionOutcome::Cancelled,
            SelectionOutcome::TimedOut => SelectionOutcome::TimedOut,
        }
    }
}

/// The selection state: pending until one terminal outcome.
pub enum SelectionState {
    Pending,
    Done(SelectionOutcome),
}

impl Clone for SelectionState {
    fn clone(&self) -> (r: Self)
        ensures
            r == *self,
    {
        match self {
            SelectionState::Pending => SelectionState::Pending,
            SelectionState::Done(o) => SelectionState::Done(o.clone()),
        }
    }
}

/// The side effect the transport must perform after a step.
#[derive(PartialEq, Eq, Structural, Clone, Copy, Debug)]
pub enum SelectionAction {
    /// Nothing to do.
    Keep,
    /// Update the prompt to reflect the made choice.
    AnnounceChoice,
    /// Retract the prompt so a stale menu cannot be acted on.
    RetractPrompt,
}

/// The time an event carries.
pub open spec fn event_time(ev: SelectionEvent) -> int {
    match ev {
        SelectionEvent::Choice { at, .. } => at as int,
        SelectionEvent::Cancel { at } => at as int,
        SelectionEvent::Clock { at } => at as int,
    }
}

/// An event resolves the request to a choice exactly when it is a menu
/// choice by the same requester in the same channel, on a position the
/// menu has, before the deadline.
pub open spec fn qualifies(req: &SelectionRequest, ev: SelectionEvent) -> bool {
    match ev {
        SelectionEvent::Choice { requester, channel, index, at } => {
            &&& requester == req.requester
            &&& channel == req.channel
            &&& (index as int) < req.candidates@.len()
            &&& (at as int) < req.deadline()
        },
        _ => false,
    }
}

impl SelectionRequest {
    /// The instant the prompt expires: 180 seconds after issue.
    pub open spec fn deadline(&self) -> int {
        self.issued_at + 180
    }

    /// Well-formed: the menu has one to ten entries and the deadline is
    /// representable.
    pub open spec fn wf(&self) -> bool {
        &&& 1 <= self.candidates@.len() <= 10
        &&& self.issued_at + 180 <= u64::MAX
    }

    /// Builds a selection request over a non-empty bounded menu.
    pub fn new(candidates: Vec<SteamApp>, issued_at: u64, requester: u64, channel: u64) -> (r:
        SelectionRequest)
        requires
            1 <= candidates@.len() <= 10,
            issued_at + 180 <= u64::MAX,
        ensures
            r.wf(),
            r.candidates == candidates,
            r.issued_at == issued_at,
            r.requester == requester,
            r.channel == channel,
    {
        SelectionRequest { candidates, issued_at, requester, channel }
    }

    /// The instant the prompt expires, as a clock value.
    pub fn deadline_secs(&self) -> (r: u64)
        requires
            self.wf(),
        ensures
            r == self.deadline(),
    {
        self.issued_at + SELECTION_TIMEOUT_SECS
    }

    /// Advances the selection by one reported event.
    pub fn step(&self, state: &SelectionState, ev: &SelectionEvent) -> (r: (
        SelectionState,
        SelectionAction,
    ))
        requires
            self.wf(),
        ensures
            r == step_spec(self, *state, *ev),
    {
        match state {
            SelectionState::Done(o) => (SelectionState::Done(o.clone()), SelectionAction::Keep),
            SelectionState::Pending => {
                let deadline = self.issued_at + SELECTION_TIMEOUT_SECS;
                match ev {
                    SelectionEvent::Choice { requester, channel, index, at } => {
                        if *at >= deadline {
                            (
                                SelectionState::Done(SelectionOutcome::TimedOut),
                                SelectionAction::RetractPrompt,
                            )
                        } else if *requester == self.requester && *channel == self.channel && *index
                            < self.candidates.len() {
                            (
                                SelectionState::Done(
                                    SelectionOutcome::Chosen(self.candidates[*index].clone()),
                                ),
                                SelectionAction::AnnounceChoice,
                            )
                        } else {
                            (SelectionState::Pending, SelectionAction::Keep)
                        }
                    },
                    SelectionEvent::Cancel { .. } => (
                        SelectionState::Done(SelectionOutcome::Cancelled),
                        SelectionAction::RetractPrompt,
                    ),
                    SelectionEvent::Clock { at } => {
                        if *at >= deadline {
                            (
                                SelectionState::Done(SelectionOutcome::TimedOut),
                                SelectionAction::RetractPrompt,
                            )
                        } else {
                            (SelectionState::Pending, SelectionAction::Keep)
                        }
                    },
                }
            },
        }
    }
}

/// The transition relation of the selection machine. A terminal state
/// absorbs every event; a pending request times out on any event at or
/// past the deadline, resolves on a qualifying choice, cancels on an
/// explicit signal, and otherwise stays pending.
pub open spec fn step_spec(req: &SelectionRequest, state: SelectionState, ev: SelectionEvent) -> (
    SelectionState,
    SelectionAction,
) {
    match state {
        SelectionState::Done(_) => (state, SelectionAction::Keep),
        SelectionState::Pending => match ev {
            SelectionEvent::Choice { requester, channel, index, at } => {
                if at as int >= req.deadline() {
                    (SelectionState::Done(SelectionOutcome::TimedOut), SelectionAction::RetractPrompt)
                } else if requester == req.requester && channel == req.channel && (index as int)
                    < req.candidates@.len() {
                    (
                        SelectionState::Done(
                            SelectionOutcome::Chosen(req.candidates@[index as int]),
                        ),
                        SelectionAction::AnnounceChoice,
                    )
                } else {
                    (SelectionState::Pending, SelectionAction::Keep)
                }
            },
            SelectionEvent::Cancel { .. } => (
                SelectionState::Done(SelectionOutcome::Cancelled),
                SelectionAction::RetractPrompt,
            ),
            SelectionEvent::Clock { at } => {
                if at as int >= req.deadline() {
                    (SelectionState::Done(SelectionOutcome::TimedOut), SelectionAction::RetractPrompt)
                } else {
                    (SelectionState::Pending, SelectionAction::Keep)
                }
            },
        },
    }
}

/// The state after a sequence of events is reported, in order.
pub open spec fn run_from(
    req: &SelectionRequest,
    state: SelectionState,
    events: Seq<SelectionEvent>,
) -> SelectionState
    decreases events.len(),
{
    if events.len() == 0 {
        state
    } else {
        run_from(req, step_spec(req, state, events[0]).0, events.skip(1))
    }
}

/// How many steps of a run demand that the prompt be retracted.
pub open spec fn retractions_from(
    req: &SelectionRequest,
    state: SelectionState,
    events: Seq<SelectionEvent>,
) -> nat
    decreases events.len(),
{
    if events.len() == 0 {
        0
    } else {
        let stepped = step_spec(req, state, events[0]);
        (if stepped.1 == SelectionAction::RetractPrompt {
            1nat
        } else {
            0nat
        }) + retractions_from(req, stepped.0, events.skip(1))
    }
}

/// A selection event whose requester or channel does not match the request
/// never resolves it to a choice.
pub proof fn lemma_foreign_event_never_chosen(
    req: &SelectionRequest,
    state: SelectionState,
    ev: SelectionEvent,
)
    requires
        ev matches SelectionEvent::Choice { requester, channel, .. } && (requester != req.requester
            || channel != req.channel),
        !(state matches SelectionState::Done(SelectionOutcome::Chosen(_))),
    ensures
        !(step_spec(req, state, ev).0 matches SelectionState::Done(SelectionOutcome::Chosen(_))),
{
}

/// A run containing no qualifying choice never reaches a chosen state.
pub proof fn lemma_run_never_chosen(
    req: &SelectionRequest,
    state: SelectionState,
    events: Seq<SelectionEvent>,
)
    requires
        !(state matches SelectionState::Done(SelectionOutcome::Chosen(_))),
        forall|i: int| 0 <= i < events.len() ==> !qualifies(req, #[trigger] events[i]),
    ensures
        !(run_from(req, state, events) matches SelectionState::Done(SelectionOutcome::Chosen(_))),
    decreases events.len(),
{
    if events.len() > 0 {
        let next = step_spec(req, state, events[0]).0;
        lemma_run_never_chosen(req, next, events.skip(1));
    }
}

/// A terminal state absorbs every further event and retracts nothing more.
pub proof fn lemma_terminal_absorbs(
    req: &SelectionRequest,
    outcome: SelectionOutcome,
    events: Seq<SelectionEvent>,
)
    ensures
        run_from(req, SelectionState::Done(outcome), events) == SelectionState::Done(outcome),
        retractions_from(req, SelectionState::Done(outcome), events) == 0,
    decreases events.len(),
{
    if events.len() > 0 {
        lemma_terminal_absorbs(req, outcome, events.skip(1));
    }
}

/// When no qualifying choice and no cancellation is reported, and the clock
/// is reported at or past the deadline, a pending selection times out, and
/// the prompt is retracted exactly once over the whole run.
pub proof fn lemma_timeout(req: &SelectionRequest, events: Seq<SelectionEvent>)
    requires
        forall|i: int| 0 <= i < events.len() ==> !qualifies(req, #[trigger] events[i]),
        forall|i: int|
            0 <= i < events.len() ==> !(#[trigger] events[i] matches SelectionEvent::Cancel { .. }),
        exists|i: int| 0 <= i < events.len() && event_time(#[trigger] events[i]) >= req.deadline(),
    ensures
        run_from(req, SelectionState::Pending, events) == SelectionState::Done(
            SelectionOutcome::TimedOut,
        ),
        retractions_from(req, SelectionState::Pending, events) == 1,
    decreases events.len(),
{
    let e0 = events[0];
    if event_time(e0) >= req.deadline() {
        lemma_terminal_absorbs(req, SelectionOutcome::TimedOut, events.skip(1));
    } else {
        let w = choose|i: int|
            0 <= i < events.len() && event_time(#[trigger] events[i]) >= req.deadline();
        assert(w >= 1);
        assert(forall|i: int|
            0 <= i < events.skip(1).len() ==> #[trigger] events.skip(1)[i] == events[i + 1]);
        assert(event_time(events.skip(1)[w - 1]) >= req.deadline());
        lemma_timeout(req, events.skip(1));
    }
}

/// However events arrive, a selection retracts its prompt at most once,
/// and exactly once when and only when it ends cancelled or timed out.
pub proof fn lemma_retract_once(req: &SelectionRequest, events: Seq<SelectionEvent>)
    ensures
        retractions_from(req, SelectionState::Pending, events) <= 1,
        retractions_from(req, SelectionState::Pending, events) == 1 <==> (run_from(
            req,
            SelectionState::Pending,
            events,
        ) matches SelectionState::Done(o) && !(o matches SelectionOutcome::Chosen(_))),
    decreases events.len(),
{
    if events.len() > 0 {
        let stepped = step_spec(req, SelectionState::Pending, events[0]);
        match stepped.0 {
            SelectionState::Pending => {
                lemma_retract_once(req, events.skip(1));
            },
            SelectionState::Done(o) => {
                lemma_terminal_absorbs(req, o, events.skip(1));
            },
        }
    }
}

} // verus!
