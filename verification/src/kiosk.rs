//! The kiosk's ordering stages.
//!
//! A kiosk shows the menu, then the order for payment, then a thank-you
//! page, and returns to the menu by itself. [`step`] says, for every state
//! and every message, what the next state is and what the host has to do;
//! [`State::update`] carries it out. The host performs the effects (sending
//! the order, waiting) and reports back with further messages.

use crate::menu::{BaseId, Config, ConfigView, Order, OrderView, ToppingsId};
use vstd::prelude::*;

verus! {

/// How long the thank-you page stays before the kiosk returns to the menu,
/// in milliseconds.
pub const RESET_DELAY_MS: u64 = 5000;

/// The stage of an ordering cycle that the kiosk shows.
#[derive(Clone, Copy, Debug, PartialEq, Eq, Structural)]
pub enum Page {
    Menu,
    Order,
    OrderComplete,
}

/// What can happen to a kiosk.
#[derive(Clone, Copy, Debug, PartialEq, Eq, Structural)]
pub enum Message {
    /// The user picked a base.
    SelectBase(BaseId),
    /// The user tapped a topping.
    ToggleTopping(ToppingsId),
    /// The user picked a spice level.
    SelectSpiceLevel(i32),
    /// The user asked for a page: the order page from the menu, or the
    /// thank-you page (by paying) from the order page.
    SetPage(Page),
    /// The wait that was asked for at stage entry `generation` is over;
    /// `waited_ms` is the time since the thank-you page was entered.
    ResetDue { generation: u64, waited_ms: u64 },
    /// The order submitted at stage entry `generation` could not be sent.
    SubmitFailed { generation: u64 },
}

/// What the host has to do after a message.
#[derive(Debug, PartialEq, Eq)]
pub enum Effect {
    /// Nothing.
    Nothing,
    /// Send the order to the server, once, and deliver
    /// [`Message::ResetDue`] with this generation after `delay_ms`.
    Submit { order: Order, generation: u64, delay_ms: u64 },
    /// Deliver [`Message::ResetDue`] with this generation after a further
    /// `delay_ms`.
    Wait { generation: u64, delay_ms: u64 },
}

/// An effect as a mathematical value.
pub enum EffectView {
    Nothing,
    Submit { order: OrderView, generation: u64, delay_ms: u64 },
    Wait { generation: u64, delay_ms: u64 },
}

impl View for Effect {
    type V = EffectView;

    open spec fn view(&self) -> EffectView {
        match *self {
            Effect::Nothing => EffectView::Nothing,
            Effect::Submit { order, generation, delay_ms } => EffectView::Submit {
                order: order@,
                generation,
                delay_ms,
            },
            Effect::Wait { generation, delay_ms } => EffectView::Wait { generation, delay_ms },
        }
    }
}

/// A kiosk: the configuration it was started with, the order being put
/// together, the page shown, the count of stage entries, and whether the
/// order of this cycle is known not to have reached the server.
pub struct State {
    config: Config,
    current_order: Order,
    current_page: Page,
    generation: u64,
    undelivered: bool,
}

/// A kiosk's state as a mathematical value.
pub struct StateView {
    pub config: ConfigView,
    pub order: OrderView,
    pub page: Page,
    pub generation: u64,
    pub undelivered: bool,
}

impl View for State {
    type V = StateView;

    closed spec fn view(&self) -> StateView {
        StateView {
            config: self.config@,
            order: self.current_order@,
            page: self.current_page,
            generation: self.generation,
            undelivered: self.undelivered,
        }
    }
}

/// Holds of every topping but the given one.
pub open spec fn other_than(id: ToppingsId) -> spec_fn(ToppingsId) -> bool {
    |t: ToppingsId| t != id
}

/// The toppings after a tap on `id`: without it where it was chosen, and
/// with it at the end where it was not.
pub open spec fn toggle(toppings: Seq<ToppingsId>, id: ToppingsId) -> Seq<ToppingsId> {
    if toppings.contains(id) {
        toppings.filter(other_than(id))
    } else {
        toppings.push(id)
    }
}

/// The count of stage entries after one more. It starts again from zero
/// after the largest value.
pub open spec fn next_generation(generation: u64) -> u64 {
    if generation == u64::MAX {
        0
    } else {
        (generation + 1) as u64
    }
}

/// The state in which a kiosk starts: the menu page, with the default
/// order.
pub open spec fn initial(config: ConfigView) -> StateView {
    StateView {
        config,
        order: config.default_order,
        page: Page::Menu,
        generation: 0,
        undelivered: false,
    }
}

impl StateView {
    /// The state after entering `page`.
    pub open spec fn enter(self, page: Page) -> StateView {
        StateView { page, generation: next_generation(self.generation), ..self }
    }

    /// The order may be changed: the kiosk shows the menu or the order.
    pub open spec fn accepts_changes(self) -> bool {
        self.page != Page::OrderComplete
    }

    /// The configuration is well formed and the toppings of the order form
    /// a set: none is chosen twice.
    pub open spec fn well_formed(self) -> bool {
        self.config.well_formed() && self.order.toppings.no_duplicates()
    }
}

/// The next state and the effect, for every state and message.
///
/// The order changes only while the menu or the order page is shown. The
/// pages follow each other in one cycle: the order page is entered from
/// the menu, the thank-you page from the order page, which submits the
/// order, and the menu from the thank-you page, once the wait of that
/// stage entry has lasted [`RESET_DELAY_MS`], which puts the default order
/// back. A message that asks for anything else changes nothing.
pub open spec fn step(s: StateView, m: Message) -> (StateView, EffectView) {
    match m {
        Message::SelectBase(id) => if s.accepts_changes() {
            (StateView { order: OrderView { base: id, ..s.order }, ..s }, EffectView::Nothing)
        } else {
            (s, EffectView::Nothing)
        },
        Message::ToggleTopping(id) => if s.accepts_changes() {
            (
                StateView {
                    order: OrderView { toppings: toggle(s.order.toppings, id), ..s.order },
                    ..s
                },
                EffectView::Nothing,
            )
        } else {
            (s, EffectView::Nothing)
        },
        Message::SelectSpiceLevel(level) => if s.accepts_changes() {
            (StateView { order: OrderView { spice_level: level, ..s.order }, ..s }, EffectView::Nothing)
        } else {
            (s, EffectView::Nothing)
        },
        Message::SetPage(page) => if s.page == Page::Menu && page == Page::Order {
            (s.enter(Page::Order), EffectView::Nothing)
        } else if s.page == Page::Order && page == Page::OrderComplete {
            (
                s.enter(Page::OrderComplete),
                EffectView::Submit {
                    order: s.order,
                    generation: next_generation(s.generation),
                    delay_ms: RESET_DELAY_MS,
                },
            )
        } else {
            (s, EffectView::Nothing)
        },
        Message::ResetDue { generation, waited_ms } => if s.page == Page::OrderComplete
            && generation == s.generation {
            if waited_ms >= RESET_DELAY_MS {
                (
                    StateView {
                        order: s.config.default_order,
                        undelivered: false,
                        ..s.enter(Page::Menu)
                    },
                    EffectView::Nothing,
                )
            } else {
                (s, EffectView::Wait { generation, delay_ms: (RESET_DELAY_MS - waited_ms) as u64 })
            }
        } else {
            (s, EffectView::Nothing)
        },
        Message::SubmitFailed { generation } => if s.page == Page::OrderComplete && generation
            == s.generation {
            (StateView { undelivered: true, ..s }, EffectView::Nothing)
        } else {
            (s, EffectView::Nothing)
        },
    }
}

/// Taking out a topping that is not there changes nothing.
pub proof fn lemma_filter_absent(toppings: Seq<ToppingsId>, id: ToppingsId)
    requires
        !toppings.contains(id),
    ensures
        toppings.filter(other_than(id)) == toppings,
    decreases toppings.len(),
{
    if toppings.len() == 0 {
        assert(toppings.filter(other_than(id)) =~= toppings) by {
            reveal(Seq::filter);
        }
    } else {
        let front = toppings.drop_last();
        assert(front.push(toppings.last()) =~= toppings);
        assert(toppings[toppings.len() - 1] != id);
        assert forall|k: int| 0 <= k < front.len() implies front[k] != id by {
            assert(toppings[k] == front[k]);
        }
        lemma_filter_absent(front, id);
        front.lemma_filter_push(toppings.last(), other_than(id));
    }
}

/// What is left after taking out a topping: every other topping that was
/// there, and nothing else.
pub proof fn lemma_filter_members(toppings: Seq<ToppingsId>, id: ToppingsId)
    ensures
        forall|t: ToppingsId| #[trigger]
            toppings.filter(other_than(id)).contains(t) <==> toppings.contains(t) && t != id,
{
    let rest = toppings.filter(other_than(id));
    assert forall|t: ToppingsId| #[trigger] rest.contains(t) <==> toppings.contains(t) && t
        != id by {
        if rest.contains(t) {
            let k = choose|k: int| 0 <= k < rest.len() && rest[k] == t;
            toppings.lemma_filter_pred(other_than(id), k);
            toppings.lemma_filter_contains_rev(other_than(id), t);
        }
        if toppings.contains(t) && t != id {
            let k = choose|k: int| 0 <= k < toppings.len() && toppings[k] == t;
            toppings.lemma_filter_contains(other_than(id), k);
        }
    }
}

/// Taking a topping out of a set of toppings leaves a set.
pub proof fn lemma_filter_distinct(toppings: Seq<ToppingsId>, id: ToppingsId)
    requires
        toppings.no_duplicates(),
    ensures
        toppings.filter(other_than(id)).no_duplicates(),
    decreases toppings.len(),
{
    if toppings.len() == 0 {
        assert(toppings.filter(other_than(id)) =~= toppings) by {
            reveal(Seq::filter);
        }
    } else {
        let front = toppings.drop_last();
        let last = toppings.last();
        assert(front.push(last) =~= toppings);
        lemma_filter_distinct(front, id);
        front.lemma_filter_push(last, other_than(id));
        lemma_filter_members(front, id);
        let rest = front.filter(other_than(id));
        if rest.contains(last) {
            let k = choose|k: int| 0 <= k < front.len() && front[k] == last;
            assert(toppings[k] == toppings[toppings.len() - 1]);
        }
    }
}

/// A tap on a topping keeps the toppings a set.
pub proof fn lemma_toggle_distinct(toppings: Seq<ToppingsId>, id: ToppingsId)
    requires
        toppings.no_duplicates(),
    ensures
        toggle(toppings, id).no_duplicates(),
{
    if toppings.contains(id) {
        lemma_filter_distinct(toppings, id);
    }
}

/// Two taps on the same topping leave the same toppings chosen. A topping
/// that was chosen before stands at the end afterwards, behind the others
/// in their old order; where it was not chosen, nothing has changed at all.
pub proof fn lemma_toggle_twice(toppings: Seq<ToppingsId>, id: ToppingsId)
    ensures
        toggle(toggle(toppings, id), id).to_set() == toppings.to_set(),
        toppings.contains(id) ==> toggle(toggle(toppings, id), id) == toppings.filter(
            other_than(id),
        ).push(id),
        toppings.contains(id) ==> toggle(toggle(toppings, id), id).last() == id,
        !toppings.contains(id) ==> toggle(toggle(toppings, id), id) == toppings,
{
    let twice = toggle(toggle(toppings, id), id);
    lemma_filter_members(toppings, id);
    if toppings.contains(id) {
        let rest = toppings.filter(other_than(id));
        assert(!rest.contains(id));
        assert(twice == rest.push(id));
        assert forall|t: ToppingsId| twice.contains(t) <==> toppings.contains(t) by {
            if twice.contains(t) {
                let k = choose|k: int| 0 <= k < twice.len() && twice[k] == t;
                if k < rest.len() {
                    assert(rest[k] == t);
                    assert(rest.contains(t));
                }
            }
            if toppings.contains(t) {
                if t == id {
                    assert(twice[rest.len() as int] == id);
                } else {
                    assert(rest.contains(t));
                    let k = choose|k: int| 0 <= k < rest.len() && rest[k] == t;
                    assert(twice[k] == t);
                }
            }
        }
        assert(twice.to_set() =~= toppings.to_set());
    } else {
        let once = toppings.push(id);
        assert(once[toppings.len() as int] == id);
        assert(once.contains(id));
        toppings.lemma_filter_push(id, other_than(id));
        lemma_filter_absent(toppings, id);
        assert(twice == toppings);
    }
}

/// Two taps on the same topping, one after the other, leave the kiosk with
/// the same toppings chosen and everything else as it was.
pub proof fn lemma_toggle_twice_restores(s: StateView, id: ToppingsId)
    ensures
        ({
            let twice = step(step(s, Message::ToggleTopping(id)).0, Message::ToggleTopping(id)).0;
            &&& twice.order.toppings.to_set() == s.order.toppings.to_set()
            &&& twice == StateView {
                order: OrderView { toppings: twice.order.toppings, ..s.order },
                ..s
            }
            &&& s.accepts_changes() && s.order.toppings.contains(id)
                ==> twice.order.toppings.last() == id
            &&& !s.order.toppings.contains(id) ==> twice == s
        }),
{
    lemma_toggle_twice(s.order.toppings, id);
}

/// Every state that a kiosk reaches from a well-formed configuration is
/// well formed: one base and one spice level are selected, and the toppings
/// form a set.
pub proof fn lemma_step_keeps_well_formed(s: StateView, m: Message)
    requires
        s.well_formed(),
    ensures
        step(s, m).0.well_formed(),
        step(s, m).0.config == s.config,
{
    match m {
        Message::ToggleTopping(id) => {
            lemma_toggle_distinct(s.order.toppings, id);
        },
        _ => {},
    }
}

/// A kiosk that is started on a well-formed configuration starts well
/// formed.
pub proof fn lemma_initial_well_formed(config: ConfigView)
    requires
        config.well_formed(),
    ensures
        initial(config).well_formed(),
        initial(config).page == Page::Menu,
{
}

/// From the menu the kiosk can only go to the order page, and does so
/// exactly on the request for it. Nothing is submitted on the way.
pub proof fn lemma_menu_leads_to_order(s: StateView, m: Message)
    requires
        s.page == Page::Menu,
    ensures
        step(s, m).0.page == Page::Menu || step(s, m).0.page == Page::Order,
        step(s, m).0.page == Page::Order <==> m == Message::SetPage(Page::Order),
        step(s, m).1 == EffectView::Nothing,
{
}

/// From the order page the kiosk can only go to the thank-you page, and
/// does so exactly on the request for it. Entering the thank-you page
/// submits the order as it stood, once, and asks for the wait; nothing
/// else on the order page submits anything.
pub proof fn lemma_order_leads_to_complete(s: StateView, m: Message)
    requires
        s.page == Page::Order,
    ensures
        step(s, m).0.page == Page::Order || step(s, m).0.page == Page::OrderComplete,
        step(s, m).0.page == Page::OrderComplete <==> m == Message::SetPage(Page::OrderComplete),
        step(s, m).0.page == Page::OrderComplete ==> step(s, m).1 == (EffectView::Submit {
            order: s.order,
            generation: step(s, m).0.generation,
            delay_ms: RESET_DELAY_MS,
        }) && step(s, m).0.order == s.order,
        step(s, m).0.page == Page::Order ==> step(s, m).1 == EffectView::Nothing,
{
}

/// From the thank-you page the kiosk can only go to the menu. It does so
/// exactly when the wait of this stage entry is reported over after no
/// less than the delay, and only then is the default order put back: until
/// then the order stays as it was submitted. Nothing is submitted from the
/// thank-you page.
pub proof fn lemma_complete_leads_to_menu(s: StateView, m: Message)
    requires
        s.page == Page::OrderComplete,
    ensures
        step(s, m).0.page == Page::OrderComplete || step(s, m).0.page == Page::Menu,
        step(s, m).0.page == Page::Menu <==> (m matches Message::ResetDue { generation, waited_ms }
            && generation == s.generation && waited_ms >= RESET_DELAY_MS),
        step(s, m).0.page == Page::Menu ==> step(s, m).0.order == s.config.default_order,
        step(s, m).0.page == Page::OrderComplete ==> step(s, m).0.order == s.order,
        !(step(s, m).1 is Submit),
{
}

/// A wait that was asked for at an earlier stage entry has no effect when
/// it is reported over: the state stays as it is.
pub proof fn lemma_stale_reset_is_discarded(s: StateView, generation: u64, waited_ms: u64)
    requires
        generation != s.generation || s.page != Page::OrderComplete,
    ensures
        step(s, Message::ResetDue { generation, waited_ms }) == (s, EffectView::Nothing),
{
}

/// Removes every occurrence of `id` where there is one, and appends `id`
/// where there is none.
pub fn toggle_topping(toppings: &mut Vec<ToppingsId>, id: ToppingsId)
    ensures
        final(toppings)@ == toggle(old(toppings)@, id),
{
    let ghost before = toppings@;
    let mut kept: Vec<ToppingsId> = Vec::new();
    let mut found = false;
    let mut i: usize = 0;
    assert(before.take(0).filter(other_than(id)) =~= Seq::<ToppingsId>::empty()) by {
        reveal(Seq::filter);
    }
    while i < toppings.len()
        invariant
            i <= toppings.len(),
            toppings@ == before,
            kept@ == before.take(i as int).filter(other_than(id)),
            found == before.take(i as int).contains(id),
        decreases toppings.len() - i,
    {
        let t = toppings[i];
        proof {
            let sofar = before.take(i as int);
            assert(before.take(i + 1) =~= sofar.push(t));
            sofar.lemma_filter_push(t, other_than(id));
            if t == id {
                assert(sofar.push(t)[i as int] == id);
            } else if sofar.push(t).contains(id) {
                let k = choose|k: int| 0 <= k < sofar.push(t).len() && sofar.push(t)[k] == id;
                assert(sofar[k] == id);
            } else if sofar.contains(id) {
                let k = choose|k: int| 0 <= k < sofar.len() && sofar[k] == id;
                assert(sofar.push(t)[k] == id);
            }
        }
        if t == id {
            found = true;
        } else {
            kept.push(t);
        }
        i += 1;
    }
    assert(before.take(i as int) =~= before);
    if found {
        *toppings = kept;
    } else {
        toppings.push(id);
    }
}

impl State {
    /// Starts a kiosk on the menu page, with the configuration's default
    /// order.
    pub fn new(config: Config) -> (s: State)
        ensures
            s@ == initial(config@),
    {
        let current_order = config.default_order.clone();
        State {
            config,
            current_order,
            current_page: Page::Menu,
            generation: 0,
            undelivered: false,
        }
    }

    /// The configuration that the kiosk was started with.
    pub fn config(&self) -> (config: &Config)
        ensures
            config@ == self@.config,
    {
        &self.config
    }

    /// The order as it stands.
    pub fn order(&self) -> (order: &Order)
        ensures
            order@ == self@.order,
    {
        &self.current_order
    }

    /// The page shown.
    pub fn page(&self) -> (page: Page)
        ensures
            page == self@.page,
    {
        self.current_page
    }

    /// The count of stage entries.
    pub fn generation(&self) -> (generation: u64)
        ensures
            generation == self@.generation,
    {
        self.generation
    }

    /// Whether the order of this cycle is known not to have reached the
    /// server.
    pub fn undelivered(&self) -> (undelivered: bool)
        ensures
            undelivered == self@.undelivered,
    {
        self.undelivered
    }

    /// Enters a page.
    fn enter(&mut self, page: Page)
        ensures
            final(self)@ == old(self)@.enter(page),
    {
        self.current_page = page;
        self.generation = if self.generation == u64::MAX {
            0
        } else {
            self.generation + 1
        };
    }

    /// Takes a message: moves to the next state and tells the host what to
    /// do.
    pub fn update(&mut self, message: Message) -> (effect: Effect)
        ensures
            (final(self)@, effect@) == step(old(self)@, message),
    {
        let changeable = match self.current_page {
            Page::OrderComplete => false,
            _ => true,
        };
        match message {
            Message::SelectBase(id) => {
                if changeable {
                    self.current_order.base = id;
                }
                Effect::Nothing
            },
            Message::ToggleTopping(id) => {
                if changeable {
                    toggle_topping(&mut self.current_order.toppings, id);
                }
                Effect::Nothing
            },
            Message::SelectSpiceLevel(level) => {
                if changeable {
                    self.current_order.spice_level = level;
                }
                Effect::Nothing
            },
            Message::SetPage(page) => {
                match (self.current_page, page) {
                    (Page::Menu, Page::Order) => {
                        self.enter(Page::Order);
                        Effect::Nothing
                    },
                    (Page::Order, Page::OrderComplete) => {
                        self.enter(Page::OrderComplete);
                        Effect::Submit {
                            order: self.current_order.clone(),
                            generation: self.generation,
                            delay_ms: RESET_DELAY_MS,
                        }
                    },
                    _ => Effect::Nothing,
                }
            },
            Message::ResetDue { generation, waited_ms } => {
                if !changeable && generation == self.generation {
                    if waited_ms >= RESET_DELAY_MS {
                        self.enter(Page::Menu);
                        self.current_order = self.config.default_order.clone();
                        self.undelivered = false;
                        Effect::Nothing
                    } else {
                        Effect::Wait { generation, delay_ms: RESET_DELAY_MS - waited_ms }
                    }
                } else {
                    Effect::Nothing
                }
            },
            Message::SubmitFailed { generation } => {
                if !changeable && generation == self.generation {
                    self.undelivered = true;
                }
                Effect::Nothing
            },
        }
    }
}

} // verus!
