//! The course of one invocation of a contract.
//!
//! An invocation begins with no arguments established. The harness binds the
//! arguments, starts the contract, and the contract either runs to its end or
//! reverts. Both ends are final: nothing follows them but a reset for the
//! next invocation.

use vstd::prelude::*;

verus! {

/// Where an invocation stands.
#[derive(Clone, Copy, Debug, PartialEq, Eq, Structural)]
pub enum Phase {
    /// No arguments are established.
    NoArgsEstablished,
    /// The arguments are bound; the contract has not started.
    ArgsBound,
    /// The contract runs.
    Executing,
    /// The contract ran to its end.
    Completed,
    /// The contract reverted.
    Reverted,
}

/// What moves an invocation on.
#[derive(Clone, Copy, Debug, PartialEq, Eq, Structural)]
pub enum Event {
    /// The harness installs the arguments.
    BindArgs,
    /// The harness starts the contract.
    Start,
    /// The contract returns.
    Complete,
    /// The contract reverts.
    Revert,
}

/// The phase that follows `phase` on `event`, where the event is in order
/// there.
pub open spec fn transition(phase: Phase, event: Event) -> Option<Phase> {
    match (phase, event) {
        (Phase::NoArgsEstablished, Event::BindArgs) => Some(Phase::ArgsBound),
        (Phase::ArgsBound, Event::Start) => Some(Phase::Executing),
        (Phase::Executing, Event::Complete) => Some(Phase::Completed),
        (Phase::Executing, Event::Revert) => Some(Phase::Reverted),
        _ => None,
    }
}

/// Whether the arguments of the invocation are there to be asked for.
pub open spec fn args_established(phase: Phase) -> bool {
    phase == Phase::ArgsBound || phase == Phase::Executing
}

/// Whether the invocation is over.
pub open spec fn is_final(phase: Phase) -> bool {
    phase == Phase::Completed || phase == Phase::Reverted
}

/// Moves an invocation on: the next phase, or nothing where the event is
/// out of order.
pub fn step(phase: Phase, event: Event) -> (next: Option<Phase>)
    ensures
        next == transition(phase, event),
{
    match (phase, event) {
        (Phase::NoArgsEstablished, Event::BindArgs) => Some(Phase::ArgsBound),
        (Phase::ArgsBound, Event::Start) => Some(Phase::Executing),
        (Phase::Executing, Event::Complete) => Some(Phase::Completed),
        (Phase::Executing, Event::Revert) => Some(Phase::Reverted),
        _ => None,
    }
}

/// An invocation that is over stays over, whatever happens.
pub proof fn law_final_phases_are_terminal(phase: Phase, event: Event)
    requires
        is_final(phase),
    ensures
        transition(phase, event).is_none(),
{
}

/// The arguments are established from the binding on, and no longer once the
/// invocation is over.
pub proof fn law_args_follow_phase(phase: Phase, event: Event)
    requires
        transition(phase, event).is_some(),
    ensures
        args_established(transition(phase, event).unwrap()) == (event == Event::BindArgs || event
            == Event::Start),
{
}

} // verus!
