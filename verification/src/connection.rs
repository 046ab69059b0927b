//! The life of one command connection, as a state machine.
//!
//! Whoever owns the socket performs the pending action of the connection's
//! phase and hands in what came of it as a signal. The step says which events
//! to publish and which phase comes next.

use vstd::prelude::*;
use crate::command::{command_events, commands_read, events_report};
use crate::event::BackendEvent;

verus! {

/// Where a connection stands.
#[derive(Clone, Copy, Debug, PartialEq, Eq, Structural)]
pub enum Phase {
    /// Waiting for bytes from the peer.
    Reading,
    /// Bytes were read and are to be acknowledged.
    Acknowledging,
    /// The connection is over.
    Closed,
}

/// What came of the action that a connection was waiting for.
#[derive(Clone, Debug, PartialEq, Eq)]
pub enum Signal {
    /// A read gave these bytes. None at all means that the peer has closed.
    Received(Vec<u8>),
    /// A read failed.
    ReadFailed,
    /// The acknowledgment was written.
    Written,
    /// Writing the acknowledgment failed.
    WriteFailed,
}

/// What is to be done for a connection.
#[derive(Clone, Debug, PartialEq, Eq)]
pub enum Action {
    /// Read from the peer.
    Read,
    /// Write these bytes to the peer.
    Write(Vec<u8>),
    /// Drop the connection.
    Close,
}

/// What is to be done for a connection, with the bytes as a sequence.
pub enum ActionView {
    Read,
    Write(Seq<u8>),
    Close,
}

impl View for Action {
    type V = ActionView;

    open spec fn view(&self) -> ActionView {
        match self {
            Action::Read => ActionView::Read,
            Action::Write(bytes) => ActionView::Write(bytes@),
            Action::Close => ActionView::Close,
        }
    }
}

/// The acknowledgment: the letters `ACK` and a line feed.
pub open spec fn acknowledgment_bytes() -> Seq<u8> {
    seq![0x41u8, 0x43u8, 0x4Bu8, 0x0Au8]
}

/// The phase that follows a signal. A read that gives bytes is to be
/// acknowledged; one that gives none, or fails, ends the connection. A written
/// acknowledgment leads back to reading; a failed one ends the connection. A
/// signal that the phase does not wait for changes nothing.
pub open spec fn next_phase(phase: Phase, signal: Signal) -> Phase {
    match (phase, signal) {
        (Phase::Reading, Signal::Received(bytes)) => if bytes@.len() == 0 {
            Phase::Closed
        } else {
            Phase::Acknowledging
        },
        (Phase::Reading, Signal::ReadFailed) => Phase::Closed,
        (Phase::Acknowledging, Signal::Written) => Phase::Reading,
        (Phase::Acknowledging, Signal::WriteFailed) => Phase::Closed,
        _ => phase,
    }
}

/// The commands that a signal brings: those of the bytes that a read gave
/// while the connection was reading, and otherwise none.
pub open spec fn commands_brought(phase: Phase, signal: Signal) -> Seq<Seq<char>> {
    match (phase, signal) {
        (Phase::Reading, Signal::Received(bytes)) => commands_read(bytes@),
        _ => Seq::empty(),
    }
}

/// What is to be done in a phase.
pub open spec fn pending(phase: Phase) -> ActionView {
    match phase {
        Phase::Reading => ActionView::Read,
        Phase::Acknowledging => ActionView::Write(acknowledgment_bytes()),
        Phase::Closed => ActionView::Close,
    }
}

/// The acknowledgment that is written after each read that gave bytes.
pub fn acknowledgment() -> (bytes: Vec<u8>)
    ensures
        bytes@ == acknowledgment_bytes(),
{
    let mut bytes: Vec<u8> = Vec::new();
    bytes.push(0x41u8);
    bytes.push(0x43u8);
    bytes.push(0x4Bu8);
    bytes.push(0x0Au8);
    assert(bytes@ =~= acknowledgment_bytes());
    bytes
}

/// What is to be done in a phase.
pub fn action_for(phase: Phase) -> (action: Action)
    ensures
        action@ == pending(phase),
{
    match phase {
        Phase::Reading => Action::Read,
        Phase::Acknowledging => Action::Write(acknowledgment()),
        Phase::Closed => Action::Close,
    }
}

/// One step of a connection with the peer `sender`: the phase that follows
/// the signal, and the events to publish, one for each command that the
/// signal brought.
pub fn step(phase: Phase, signal: Signal, sender: &str) -> (out: (Phase, Vec<BackendEvent>))
    ensures
        out.0 == next_phase(phase, signal),
        events_report(out.1@, commands_brought(phase, signal), sender@),
{
    match phase {
        Phase::Reading => match signal {
            Signal::Received(bytes) => {
                if bytes.len() == 0 {
                    assert(bytes@ =~= Seq::<u8>::empty());
                    proof {
                        lemma_no_bytes_no_commands();
                    }
                    (Phase::Closed, Vec::new())
                } else {
                    let events = command_events(bytes.as_slice(), sender);
                    (Phase::Acknowledging, events)
                }
            },
            Signal::ReadFailed => (Phase::Closed, Vec::new()),
            _ => (phase, Vec::new()),
        },
        Phase::Acknowledging => match signal {
            Signal::Written => (Phase::Reading, Vec::new()),
            Signal::WriteFailed => (Phase::Closed, Vec::new()),
            _ => (phase, Vec::new()),
        },
        Phase::Closed => (phase, Vec::new()),
    }
}

/// A read that gives no bytes brings no command.
pub proof fn lemma_no_bytes_no_commands()
    ensures
        commands_read(Seq::<u8>::empty()) == Seq::<Seq<char>>::empty(),
{
    let none = Seq::<u8>::empty();
    if vstd::utf8::valid_utf8(none) {
        reveal_with_fuel(vstd::utf8::decode_utf8, 1);
        assert(vstd::utf8::decode_utf8(none) =~= Seq::<char>::empty());
        reveal_with_fuel(Seq::filter, 1);
        assert(commands_read(none) =~= Seq::<Seq<char>>::empty());
    }
}

/// Every read that gives bytes is acknowledged exactly once, whatever the
/// bytes hold: the connection then waits to write the acknowledgment and
/// nothing else, and once that is written it waits to read again.
pub proof fn law_one_acknowledgment_per_read(bytes: Vec<u8>)
    requires
        bytes@.len() > 0,
    ensures
        next_phase(Phase::Reading, Signal::Received(bytes)) == Phase::Acknowledging,
        pending(Phase::Acknowledging) == ActionView::Write(acknowledgment_bytes()),
        next_phase(Phase::Acknowledging, Signal::Written) == Phase::Reading,
        pending(Phase::Reading) == ActionView::Read,
{
}

/// A peer that closes ends its connection quietly: a read that gives no bytes
/// leads to the closed phase and brings no command, so that no event is
/// published, and a closed connection stays closed.
pub proof fn law_close_is_quiet(bytes: Vec<u8>, later: Signal)
    requires
        bytes@.len() == 0,
    ensures
        next_phase(Phase::Reading, Signal::Received(bytes)) == Phase::Closed,
        commands_brought(Phase::Reading, Signal::Received(bytes)) == Seq::<Seq<char>>::empty(),
        pending(Phase::Closed) == ActionView::Close,
        next_phase(Phase::Closed, later) == Phase::Closed,
        commands_brought(Phase::Closed, later) == Seq::<Seq<char>>::empty(),
{
    assert(bytes@ =~= Seq::<u8>::empty());
    lemma_no_bytes_no_commands();
}

/// The phases of several connections after one of them has taken a step.
pub open spec fn connections_after(phases: Seq<Phase>, which: int, signal: Signal) -> Seq<Phase>
    recommends
        0 <= which < phases.len(),
{
    phases.update(which, next_phase(phases[which], signal))
}

/// Connections do not touch one another: a step of one connection, a failure
/// included, leaves every other connection in its phase, and what the other
/// then makes of a signal of its own is what it would have made of it before.
pub proof fn law_connections_are_independent(
    phases: Seq<Phase>,
    one: int,
    signal: Signal,
    other: int,
    next: Signal,
)
    requires
        0 <= one < phases.len(),
        0 <= other < phases.len(),
        one != other,
    ensures
        connections_after(phases, one, signal)[other] == phases[other],
        commands_brought(connections_after(phases, one, signal)[other], next) == commands_brought(
            phases[other],
            next,
        ),
        next_phase(connections_after(phases, one, signal)[other], next) == next_phase(
            phases[other],
            next,
        ),
        connections_after(connections_after(phases, one, signal), other, next)
            == connections_after(connections_after(phases, other, next), one, signal),
{
    assert(connections_after(connections_after(phases, one, signal), other, next)
        =~= connections_after(connections_after(phases, other, next), one, signal));
}

} // verus!
