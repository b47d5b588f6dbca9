//! The periodic loops: whether a loop goes on when a round has met trouble.
//!
//! A report that the collector does not take, or a state that cannot be
//! published, is passing trouble: it is logged, and the next round tries
//! again. A lock that cannot be had, a counter that has run out of the
//! machine's numbers, or a clock that cannot give the next deadline ends
//! the loop.

use vstd::prelude::*;

verus! {

/// What a round of a periodic loop can meet.
#[derive(Clone, Copy, Debug, PartialEq, Eq, Structural)]
pub enum Trouble {
    /// The state could not be published.
    Publish,
    /// The collector could not be reached, or did not take the report.
    Report,
    /// A lock on shared state could not be had.
    Lock,
    /// A counter cannot be ticked without leaving the machine's numbers.
    Counter,
    /// The deadline of the next round cannot be told.
    Clock,
}

/// What a loop does after a round.
#[derive(Clone, Copy, Debug, PartialEq, Eq, Structural)]
pub enum Next {
    GoOn,
    Stop,
}

/// What a loop does after a round that met `trouble`.
pub open spec fn next_after(trouble: Trouble) -> Next {
    match trouble {
        Trouble::Publish | Trouble::Report => Next::GoOn,
        Trouble::Lock | Trouble::Counter | Trouble::Clock => Next::Stop,
    }
}

/// What a loop does after a round that met `trouble`: it goes on after a
/// failed publish or report, and stops after any other trouble.
pub fn after(trouble: Trouble) -> (next: Next)
    ensures
        next == next_after(trouble),
{
    match trouble {
        Trouble::Publish | Trouble::Report => Next::GoOn,
        Trouble::Lock | Trouble::Counter | Trouble::Clock => Next::Stop,
    }
}

} // verus!
