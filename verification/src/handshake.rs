//! The kiosk's side of the connection, from opening it to the first page.
//!
//! The kiosk sends the request for the configuration once
//! ([`crate::session::config_request_text`]) and waits for one message.
//! [`complete`] decides what that message leads to: a kiosk on its menu
//! page, or the reason why it cannot start.

use crate::fault::Fault;
use crate::kiosk::{initial, State, StateView};
use crate::menu::{Config, ConfigView};
use vstd::prelude::*;

verus! {

/// What arrived in answer to the request for the configuration.
#[derive(Debug, PartialEq, Eq)]
pub enum Received {
    /// A text message that reads as a configuration.
    Config(Config),
    /// A text message that does not read as a configuration.
    Malformed,
    /// A message that is no text.
    NotText,
    /// Nothing: the connection dropped.
    Closed,
}

/// What arrived, as a mathematical value.
pub enum ReceivedView {
    Config(ConfigView),
    Malformed,
    NotText,
    Closed,
}

impl View for Received {
    type V = ReceivedView;

    open spec fn view(&self) -> ReceivedView {
        match *self {
            Received::Config(config) => ReceivedView::Config(config@),
            Received::Malformed => ReceivedView::Malformed,
            Received::NotText => ReceivedView::NotText,
            Received::Closed => ReceivedView::Closed,
        }
    }
}

/// Why a kiosk cannot start.
#[derive(Clone, Copy, Debug, PartialEq, Eq, Structural)]
pub enum HandshakeError {
    /// The answer does not read as a configuration.
    Malformed,
    /// The answer is no text message.
    Unexpected,
    /// The connection dropped before the answer.
    ConnectionLost,
    /// The configuration breaks its invariant: an id occurs twice in a
    /// list of the menu, a base has a negative price, or the default order
    /// is not valid for the menu.
    InvalidConfig,
}

/// What the answer to the request for the configuration leads to: the
/// kiosk's first state where the answer is a well-formed configuration,
/// and the reason why the kiosk cannot start otherwise.
pub open spec fn outcome(received: ReceivedView) -> Result<StateView, HandshakeError> {
    match received {
        ReceivedView::Config(config) => if config.well_formed() {
            Ok(initial(config))
        } else {
            Err(HandshakeError::InvalidConfig)
        },
        ReceivedView::Malformed => Err(HandshakeError::Malformed),
        ReceivedView::NotText => Err(HandshakeError::Unexpected),
        ReceivedView::Closed => Err(HandshakeError::ConnectionLost),
    }
}

/// Completes the handshake with what arrived in answer to the request for
/// the configuration.
pub fn complete(received: Received) -> (started: Result<State, HandshakeError>)
    ensures
        match started {
            Ok(state) => outcome(received@) == Ok::<StateView, HandshakeError>(state@),
            Err(error) => outcome(received@) == Err::<StateView, HandshakeError>(error),
        },
{
    match received {
        Received::Config(config) => {
            if config.is_well_formed() {
                Ok(State::new(config))
            } else {
                Err(HandshakeError::InvalidConfig)
            }
        },
        Received::Malformed => Err(HandshakeError::Malformed),
        Received::NotText => Err(HandshakeError::Unexpected),
        Received::Closed => Err(HandshakeError::ConnectionLost),
    }
}

impl HandshakeError {
    /// The kind of fault that the error is.
    pub open spec fn fault_of(self) -> Fault {
        match self {
            HandshakeError::Malformed => Fault::Protocol,
            HandshakeError::Unexpected => Fault::Protocol,
            HandshakeError::ConnectionLost => Fault::Connection,
            HandshakeError::InvalidConfig => Fault::Reference,
        }
    }

    /// The kind of fault that the error is.
    pub fn fault(&self) -> (fault: Fault)
        ensures
            fault == self.fault_of(),
    {
        match self {
            HandshakeError::Malformed => Fault::Protocol,
            HandshakeError::Unexpected => Fault::Protocol,
            HandshakeError::ConnectionLost => Fault::Connection,
            HandshakeError::InvalidConfig => Fault::Reference,
        }
    }
}

/// A kiosk starts exactly when a well-formed configuration arrives, and
/// then on its menu page, well formed, with the default order.
pub proof fn lemma_starts_on_well_formed_config(received: ReceivedView)
    ensures
        outcome(received) is Ok <==> (received matches ReceivedView::Config(config)
            && config.well_formed()),
        outcome(received) matches Ok(state) ==> state.well_formed() && state.page
            == crate::kiosk::Page::Menu && state.order == state.config.default_order,
{
}

} // verus!
