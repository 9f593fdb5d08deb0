//! Per-page progress as a state machine: a page is fetched, then assembled,
//! and ends `Done` or `Failed`. The two terminal states are absorbing: there
//! is no retry transition out of `Failed`, and `Done` never regresses.
//!
//! One tile's fetch is a state machine too: it holds a network slot from the
//! moment the slot is granted until its terminal outcome, through every
//! attempt and every backoff sleep, and both terminal states have released
//! the slot — there is no exit path that keeps it.

use crate::retry::MAX_ATTEMPTS;
use vstd::prelude::*;

verus! {

/// Where one page stands in the pipeline.
#[derive(Clone, Copy, Debug, PartialEq, Eq, Structural)]
pub enum PageState {
    NotStarted,
    FetchingTiles,
    Assembling,
    Done,
    Failed,
}

/// What just happened to the page.
#[derive(Clone, Copy, Debug, PartialEq, Eq, Structural)]
pub enum PageEvent {
    /// The tile fetches for the page were launched.
    FetchStarted,
    /// Every tile fetch finished successfully.
    TilesFetched,
    /// Some tile fetch exhausted its retries.
    FetchFailed,
    /// Decode, composition and encoding all succeeded.
    AssemblyFinished,
    /// Decode, composition or encoding failed.
    AssemblyFailed,
}

/// The page transition relation. An event that does not apply to the current
/// state leaves the state unchanged; in particular `Done` and `Failed` are
/// terminal.
pub open spec fn spec_page_step(state: PageState, event: PageEvent) -> PageState {
    match (state, event) {
        (PageState::NotStarted, PageEvent::FetchStarted) => PageState::FetchingTiles,
        (PageState::NotStarted, PageEvent::FetchFailed) => PageState::Failed,
        (PageState::FetchingTiles, PageEvent::TilesFetched) => PageState::Assembling,
        (PageState::FetchingTiles, PageEvent::FetchFailed) => PageState::Failed,
        (PageState::Assembling, PageEvent::AssemblyFinished) => PageState::Done,
        (PageState::Assembling, PageEvent::AssemblyFailed) => PageState::Failed,
        _ => state,
    }
}

/// Advances one page by one event, exactly as `spec_page_step` says.
pub fn page_step(state: PageState, event: PageEvent) -> (next: PageState)
    ensures
        next == spec_page_step(state, event),
{
    match (state, event) {
        (PageState::NotStarted, PageEvent::FetchStarted) => PageState::FetchingTiles,
        (PageState::NotStarted, PageEvent::FetchFailed) => PageState::Failed,
        (PageState::FetchingTiles, PageEvent::TilesFetched) => PageState::Assembling,
        (PageState::FetchingTiles, PageEvent::FetchFailed) => PageState::Failed,
        (PageState::Assembling, PageEvent::AssemblyFinished) => PageState::Done,
        (PageState::Assembling, PageEvent::AssemblyFailed) => PageState::Failed,
        (s, _) => s,
    }
}

/// `Done` and `Failed` are terminal: no event leaves either state.
pub proof fn lemma_terminal_states_absorb(event: PageEvent)
    ensures
        spec_page_step(PageState::Done, event) == PageState::Done,
        spec_page_step(PageState::Failed, event) == PageState::Failed,
{
}

/// Where one tile's fetch stands.
#[derive(Clone, Copy, Debug, PartialEq, Eq, Structural)]
pub enum FetchState {
    /// Waiting for a slot of the network limiter.
    AwaitingPermit,
    /// Holding a slot; the attempt with this 0-indexed number is in flight.
    Attempting { attempt: u32 },
    /// Holding a slot; sleeping out the backoff after this failed attempt.
    Backoff { attempt: u32 },
    /// Terminal: the tile's bytes are in hand and the slot is released.
    Fetched,
    /// Terminal: every attempt is spent and the slot is released.
    Exhausted,
}

/// What just happened to the fetch.
#[derive(Clone, Copy, Debug, PartialEq, Eq, Structural)]
pub enum FetchEvent {
    /// The network limiter granted a slot.
    PermitGranted,
    /// The request in flight came back usable.
    AttemptSucceeded,
    /// The transport errored, the status was no success, or the body could
    /// not be read.
    AttemptFailed,
    /// The backoff sleep ran out.
    BackoffElapsed,
}

impl FetchState {
    /// Attempt numbers stay below the retry budget.
    pub open spec fn wf(self) -> bool {
        match self {
            FetchState::Attempting { attempt } => attempt < MAX_ATTEMPTS,
            FetchState::Backoff { attempt } => attempt + 1 < MAX_ATTEMPTS,
            _ => true,
        }
    }

    /// The fetch holds a slot of the network limiter.
    pub open spec fn holds_permit(self) -> bool {
        self is Attempting || self is Backoff
    }

    /// The fetch is over, one way or the other.
    pub open spec fn is_terminal(self) -> bool {
        self is Fetched || self is Exhausted
    }
}

/// The tile-fetch transition relation: a granted slot starts attempt 0, a
/// failed attempt backs off while attempts remain and gives up after the
/// last one, and an event that does not apply leaves the state unchanged.
pub open spec fn spec_fetch_step(state: FetchState, event: FetchEvent) -> FetchState {
    match (state, event) {
        (FetchState::AwaitingPermit, FetchEvent::PermitGranted) => FetchState::Attempting {
            attempt: 0,
        },
        (FetchState::Attempting { .. }, FetchEvent::AttemptSucceeded) => FetchState::Fetched,
        (FetchState::Attempting { attempt }, FetchEvent::AttemptFailed) => if attempt + 1
            < MAX_ATTEMPTS {
            FetchState::Backoff { attempt }
        } else {
            FetchState::Exhausted
        },
        (FetchState::Backoff { attempt }, FetchEvent::BackoffElapsed) => FetchState::Attempting {
            attempt: (attempt + 1) as u32,
        },
        _ => state,
    }
}

/// Advances one tile's fetch by one event, exactly as `spec_fetch_step`
/// says.
pub fn fetch_step(state: FetchState, event: FetchEvent) -> (next: FetchState)
    requires
        state.wf(),
    ensures
        next == spec_fetch_step(state, event),
        next.wf(),
{
    match (state, event) {
        (FetchState::AwaitingPermit, FetchEvent::PermitGranted) => FetchState::Attempting {
            attempt: 0,
        },
        (FetchState::Attempting { .. }, FetchEvent::AttemptSucceeded) => FetchState::Fetched,
        (FetchState::Attempting { attempt }, FetchEvent::AttemptFailed) => {
            if attempt + 1 < MAX_ATTEMPTS {
                FetchState::Backoff { attempt }
            } else {
                FetchState::Exhausted
            }
        },
        (FetchState::Backoff { attempt }, FetchEvent::BackoffElapsed) => FetchState::Attempting {
            attempt: attempt + 1,
        },
        (s, _) => s,
    }
}

/// The slot discipline of one tile's fetch: a slot is taken only when the
/// limiter grants one, it is held through every retry and backoff, and both
/// terminal outcomes have released it — no exit path keeps a slot.
pub proof fn lemma_fetch_slot_discipline(state: FetchState, event: FetchEvent)
    requires
        state.wf(),
    ensures
        spec_fetch_step(state, event).is_terminal() ==> !spec_fetch_step(
            state,
            event,
        ).holds_permit(),
        spec_fetch_step(state, event).holds_permit() && !state.holds_permit() ==> state
            is AwaitingPermit && event is PermitGranted,
        spec_fetch_step(state, event) is Exhausted && !(state is Exhausted) ==> (state matches
            FetchState::Attempting { attempt } && attempt + 1 == MAX_ATTEMPTS),
{
}

} // verus!
