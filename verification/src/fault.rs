//! What goes wrong, and how far it reaches.
//!
//! No fault on one connection touches the configuration or another
//! connection. Most faults are logged and passed over; [`disposition_of`]
//! names the ones that end a session or the process.

use vstd::prelude::*;

verus! {

/// The kinds of fault.
#[derive(Clone, Copy, Debug, PartialEq, Eq, Structural)]
pub enum Fault {
    /// A message of no recognised shape.
    Protocol,
    /// An order that refers to what the menu does not hold.
    Reference,
    /// A ledger write that failed.
    Persistence,
    /// A connection that dropped.
    Connection,
}

/// Where a fault occurs.
#[derive(Clone, Copy, Debug, PartialEq, Eq, Structural)]
pub enum Phase {
    /// On the server, in a session.
    Serving,
    /// On the kiosk, before the configuration has arrived.
    Handshake,
    /// On the kiosk, after the configuration has arrived.
    Running,
}

/// What follows a fault.
#[derive(Clone, Copy, Debug, PartialEq, Eq, Structural)]
pub enum Disposition {
    /// The fault is logged, or shown, and work goes on.
    Continue,
    /// The session ends; the process and its other sessions go on.
    EndSession,
    /// The process ends.
    EndProcess,
}

/// What follows a fault of the given kind in the given phase.
///
/// A kiosk without a configuration has nothing to show, so any fault
/// during the handshake ends its process. A server's session ends when its
/// connection drops. Everything else is passed over: a kiosk that has lost
/// its connection after the handshake goes on and shows that the order could not
/// be submitted.
pub open spec fn disposition_of(fault: Fault, phase: Phase) -> Disposition {
    match phase {
        Phase::Handshake => Disposition::EndProcess,
        Phase::Serving => match fault {
            Fault::Connection => Disposition::EndSession,
            _ => Disposition::Continue,
        },
        Phase::Running => Disposition::Continue,
    }
}

/// Decides what follows a fault of the given kind in the given phase.
pub fn disposition(fault: Fault, phase: Phase) -> (d: Disposition)
    ensures
        d == disposition_of(fault, phase),
{
    match phase {
        Phase::Handshake => Disposition::EndProcess,
        Phase::Serving => match fault {
            Fault::Connection => Disposition::EndSession,
            _ => Disposition::Continue,
        },
        Phase::Running => Disposition::Continue,
    }
}

/// No fault ends a server's process, and nothing but a dropped connection
/// ends a session: a bad message, a rejected order and a failed ledger
/// write are all passed over.
pub proof fn lemma_sessions_survive(fault: Fault)
    ensures
        disposition_of(fault, Phase::Serving) != Disposition::EndProcess,
        disposition_of(fault, Phase::Serving) == Disposition::EndSession <==> fault
            == Fault::Connection,
{
}

/// A fault ends a kiosk's process exactly when it occurs during the
/// handshake.
pub proof fn lemma_kiosk_ends_in_handshake_only(fault: Fault, phase: Phase)
    requires
        phase != Phase::Serving,
    ensures
        disposition_of(fault, phase) == Disposition::EndProcess <==> phase == Phase::Handshake,
        disposition_of(fault, phase) != Disposition::EndSession,
{
}

} // verus!
