//! The server's side of one connection.
//!
//! A session takes one message at a time and answers each by itself: it
//! keeps nothing between messages but the configuration, which never
//! changes. [`respond`] says what is to be done for every message;
//! [`handle`] computes it. The host receives, sends and writes to the
//! ledger.

use crate::fault::{disposition_of, Disposition, Fault, Phase};
use crate::menu::{Cents, Config, ConfigView, Order, OrderView, ReferenceError};
use crate::pricing::{compute_total, order_total};
use vstd::prelude::*;

verus! {

/// An instant as nanoseconds since the Unix epoch, in UTC.
pub type UnixNanos = i128;

/// The text of the message that asks for the configuration.
pub open spec fn config_request() -> Seq<char> {
    "config"@
}

/// The text of the message that asks for the configuration.
pub fn config_request_text() -> (text: &'static str)
    ensures
        text@ == config_request(),
{
    "config"
}

/// A message from a kiosk, by its kind.
#[derive(Debug, PartialEq, Eq)]
pub enum Inbound {
    /// The request for the configuration.
    ConfigRequest,
    /// A completed order.
    Order(Order),
    /// Anything else.
    Unrecognized,
}

/// A message as a mathematical value.
pub enum InboundView {
    ConfigRequest,
    Order(OrderView),
    Unrecognized,
}

impl View for Inbound {
    type V = InboundView;

    open spec fn view(&self) -> InboundView {
        match *self {
            Inbound::ConfigRequest => InboundView::ConfigRequest,
            Inbound::Order(order) => InboundView::Order(order@),
            Inbound::Unrecognized => InboundView::Unrecognized,
        }
    }
}

/// The kind of a text message, given the order that it was read as, if it
/// could be read as one. The request for the configuration is recognised
/// by its text alone.
pub open spec fn classified(text: Seq<char>, parsed: Option<OrderView>) -> InboundView {
    if text == config_request() {
        InboundView::ConfigRequest
    } else {
        match parsed {
            Some(order) => InboundView::Order(order),
            None => InboundView::Unrecognized,
        }
    }
}

/// Tells whether a text is the request for the configuration.
pub fn is_config_request(text: &str) -> (is_request: bool)
    ensures
        is_request == (text@ == config_request()),
{
    let given = text.to_owned();
    let token = config_request_text().to_owned();
    given == token
}

/// Tells the kind of a text message. `parsed` is the order that the text
/// was read as, and `None` where it could not be read as one.
pub fn classify(text: &str, parsed: Option<Order>) -> (message: Inbound)
    ensures
        message@ == classified(
            text@,
            match parsed {
                Some(order) => Some(order@),
                None => None,
            },
        ),
{
    if is_config_request(text) {
        Inbound::ConfigRequest
    } else {
        match parsed {
            Some(order) => Inbound::Order(order),
            None => Inbound::Unrecognized,
        }
    }
}

/// A row of the ledger of completed orders.
#[derive(Clone, Copy, Debug, PartialEq, Eq, Structural)]
pub struct PersistedOrder {
    pub timestamp: UnixNanos,
    pub total: Cents,
}

/// Why an order was not accepted.
#[derive(Clone, Copy, Debug, PartialEq, Eq, Structural)]
pub enum Rejection {
    /// The order refers to what the menu does not hold.
    Reference(ReferenceError),
    /// The order's total is more than a ledger row can hold.
    TotalOutOfRange,
}

/// What the host has to do for a message.
#[derive(Debug, PartialEq, Eq)]
pub enum Directive<'a> {
    /// Send the configuration to the kiosk.
    Reply(&'a Config),
    /// Append the row to the ledger. Nothing is sent to the kiosk.
    Append(PersistedOrder),
    /// Log the rejected order. Nothing is written and nothing is sent.
    Reject(Rejection),
    /// Log the message and go on.
    Ignore,
}

/// A directive as a mathematical value.
pub enum DirectiveView {
    Reply(ConfigView),
    Append(PersistedOrder),
    Reject(Rejection),
    Ignore,
}

impl<'a> View for Directive<'a> {
    type V = DirectiveView;

    open spec fn view(&self) -> DirectiveView {
        match *self {
            Directive::Reply(config) => DirectiveView::Reply(config@),
            Directive::Append(row) => DirectiveView::Append(row),
            Directive::Reject(rejection) => DirectiveView::Reject(rejection),
            Directive::Ignore => DirectiveView::Ignore,
        }
    }
}

/// What is to be done for a message that arrives at `now`.
///
/// The request for the configuration is answered with the configuration,
/// in full, every time. An order is checked against the menu first; one
/// with an unknown reference is rejected, and so is one whose total does
/// not fit a ledger row; any other is priced from the menu and appended to
/// the ledger with the time of its arrival. Anything else is ignored.
pub open spec fn respond(config: ConfigView, message: InboundView, now: UnixNanos) -> DirectiveView {
    match message {
        InboundView::ConfigRequest => DirectiveView::Reply(config),
        InboundView::Order(order) => match order.first_unknown(config.menu) {
            Some(unknown) => DirectiveView::Reject(Rejection::Reference(unknown)),
            None => {
                let total = order_total(config.menu, order);
                if i64::MIN <= total <= i64::MAX {
                    DirectiveView::Append(PersistedOrder { timestamp: now, total: total as Cents })
                } else {
                    DirectiveView::Reject(Rejection::TotalOutOfRange)
                }
            },
        },
        InboundView::Unrecognized => DirectiveView::Ignore,
    }
}

/// Decides what to do for a message that arrives at `now`.
pub fn handle<'a>(config: &'a Config, message: &Inbound, now: UnixNanos) -> (directive: Directive<'a>)
    ensures
        directive@ == respond(config@, message@, now),
{
    match message {
        Inbound::ConfigRequest => Directive::Reply(config),
        Inbound::Order(order) => match order.check_references(&config.menu) {
            Err(unknown) => Directive::Reject(Rejection::Reference(unknown)),
            Ok(()) => {
                let total = compute_total(config, order);
                if total < i64::MIN as i128 || total > i64::MAX as i128 {
                    Directive::Reject(Rejection::TotalOutOfRange)
                } else {
                    Directive::Append(PersistedOrder { timestamp: now, total: total as Cents })
                }
            },
        },
        Inbound::Unrecognized => Directive::Ignore,
    }
}

/// However often the configuration is asked for, and whenever, the answer
/// is the same configuration, whole.
pub proof fn lemma_config_reply_repeats(config: ConfigView, first: UnixNanos, again: UnixNanos)
    ensures
        respond(config, InboundView::ConfigRequest, first) == DirectiveView::Reply(config),
        respond(config, InboundView::ConfigRequest, again) == respond(
            config,
            InboundView::ConfigRequest,
            first,
        ),
{
}

/// The configuration is sent on request only, and nothing is ever sent in
/// answer to an order or to an unrecognised message.
pub proof fn lemma_reply_on_request_only(config: ConfigView, message: InboundView, now: UnixNanos)
    ensures
        respond(config, message, now) is Reply <==> message is ConfigRequest,
{
}

/// A row is appended for an order exactly when all its references are on
/// the menu and its total fits a row, and the row then holds the total
/// that the menu's prices give and the time of arrival.
pub proof fn lemma_append_is_priced(config: ConfigView, order: OrderView, now: UnixNanos)
    ensures
        respond(config, InboundView::Order(order), now) is Append <==> order.refers_into(
            config.menu,
        ) && i64::MIN <= order_total(config.menu, order) <= i64::MAX,
        respond(config, InboundView::Order(order), now) matches DirectiveView::Append(row)
            ==> row.total == order_total(config.menu, order) && row.timestamp == now,
{
    crate::menu::lemma_first_unknown_none(order, config.menu);
}

/// An order with an unknown base is rejected for that base and nothing is
/// appended for it, and the session goes on as if it had not come: an order
/// that follows it, with all its references on the menu and a total that
/// fits a row, is appended with its total.
pub proof fn lemma_rejection_leaves_session_serving(
    config: ConfigView,
    unknown: OrderView,
    at: UnixNanos,
    valid: OrderView,
    later: UnixNanos,
)
    requires
        !config.menu.has_base(unknown.base),
        valid.refers_into(config.menu),
        i64::MIN <= order_total(config.menu, valid) <= i64::MAX,
    ensures
        run(config, seq![(InboundView::Order(unknown), at), (InboundView::Order(valid), later)])
            == seq![
            DirectiveView::Reject(Rejection::Reference(ReferenceError::UnknownBase(unknown.base))),
            DirectiveView::Append(
                PersistedOrder { timestamp: later, total: order_total(config.menu, valid) as Cents },
            ),
        ],
        disposition_of(Fault::Reference, Phase::Serving) == Disposition::Continue,
{
    let first = (InboundView::Order(unknown), at);
    let second = (InboundView::Order(valid), later);
    let messages = seq![first, second];
    crate::menu::lemma_first_unknown_none(valid, config.menu);
    assert(messages.drop_last() =~= seq![first]);
    let nothing = Seq::<(InboundView, UnixNanos)>::empty();
    assert(seq![first].drop_last() =~= nothing);
    assert(run(config, nothing) =~= Seq::<DirectiveView>::empty());
    assert(seq![first].last() == first);
    assert(run(config, seq![first]) =~= seq![respond(config, first.0, first.1)]);
    assert(run(config, messages) =~= seq![
        respond(config, first.0, first.1),
        respond(config, second.0, second.1),
    ]);
}

/// What a session does for a sequence of messages, each with the time of
/// its arrival: one directive for each, in order.
pub open spec fn run(config: ConfigView, messages: Seq<(InboundView, UnixNanos)>) -> Seq<DirectiveView>
    decreases messages.len(),
{
    if messages.len() == 0 {
        Seq::empty()
    } else {
        run(config, messages.drop_last()).push(
            respond(config, messages.last().0, messages.last().1),
        )
    }
}

} // verus!
