use calmram::kiosk::{toggle_topping, Effect, Message, Page, State, RESET_DELAY_MS};
use calmram::menu::{Base, Config, Menu, Order, SpiceLevel, Toppings};

fn kiosk_config() -> Config {
    Config {
        menu: Menu {
            bases: vec![
                Base { name: "Rice".to_string(), price: 500, image_url: "rice.png".to_string(), id: 1 },
                Base { name: "Noodles".to_string(), price: 725, image_url: "noodles.png".to_string(), id: 2 },
            ],
            toppings: vec![
                Toppings { name: "Cheese".to_string(), price: Some(150), image_url: "cheese.png".to_string(), id: 10 },
                Toppings { name: "Salsa".to_string(), price: None, image_url: "salsa.png".to_string(), id: 11 },
                Toppings { name: "Corn".to_string(), price: None, image_url: "corn.png".to_string(), id: 12 },
            ],
            spice_levels: vec![
                SpiceLevel { name: "Mild".to_string(), level: 0 },
                SpiceLevel { name: "Hot".to_string(), level: 1 },
            ],
        },
        default_order: Order { base: 1, toppings: vec![11], spice_level: 0 },
    }
}

fn kiosk() -> State {
    State::new(kiosk_config())
}

/// A kiosk on its thank-you page, and the generation of that stage entry.
fn paid_kiosk() -> (State, u64) {
    let mut state = kiosk();
    state.update(Message::SelectBase(2));
    state.update(Message::ToggleTopping(10));
    state.update(Message::SetPage(Page::Order));
    match state.update(Message::SetPage(Page::OrderComplete)) {
        Effect::Submit { generation, .. } => (state, generation),
        other => panic!("no submission: {other:?}"),
    }
}

fn sorted(mut toppings: Vec<i32>) -> Vec<i32> {
    toppings.sort();
    toppings
}

#[test]
fn kiosk_starts_on_the_menu_with_the_default_order() {
    let state = kiosk();
    assert_eq!(state.page(), Page::Menu);
    assert_eq!(state.order(), &kiosk_config().default_order);
    assert_eq!(state.config(), &kiosk_config());
    assert_eq!(state.generation(), 0);
    assert!(!state.undelivered());
}

#[test]
fn select_base_replaces_the_base() {
    let mut state = kiosk();
    assert_eq!(state.update(Message::SelectBase(2)), Effect::Nothing);
    assert_eq!(state.order().base, 2);
    assert_eq!(state.order().toppings, vec![11]);
    assert_eq!(state.order().spice_level, 0);
    assert_eq!(state.page(), Page::Menu);
}

#[test]
fn select_base_does_not_ask_whether_the_base_exists() {
    let mut state = kiosk();
    state.update(Message::SelectBase(404));
    assert_eq!(state.order().base, 404);
}

#[test]
fn select_spice_level_replaces_the_level() {
    let mut state = kiosk();
    assert_eq!(state.update(Message::SelectSpiceLevel(1)), Effect::Nothing);
    assert_eq!(state.order().spice_level, 1);
    assert_eq!(state.order().base, 1);
    assert_eq!(state.order().toppings, vec![11]);
}

#[test]
fn toggle_adds_a_topping_at_the_end() {
    let mut state = kiosk();
    assert_eq!(state.update(Message::ToggleTopping(10)), Effect::Nothing);
    assert_eq!(state.order().toppings, vec![11, 10]);
    state.update(Message::ToggleTopping(12));
    assert_eq!(state.order().toppings, vec![11, 10, 12]);
}

#[test]
fn toggle_removes_a_chosen_topping() {
    let mut state = kiosk();
    state.update(Message::ToggleTopping(10));
    state.update(Message::ToggleTopping(12));
    state.update(Message::ToggleTopping(10));
    assert_eq!(state.order().toppings, vec![11, 12]);
}

#[test]
fn toggle_twice_restores_membership_and_moves_to_the_end() {
    let mut state = kiosk();
    state.update(Message::ToggleTopping(10));
    state.update(Message::ToggleTopping(12));
    let before = state.order().toppings.clone();
    assert_eq!(before, vec![11, 10, 12]);
    state.update(Message::ToggleTopping(11));
    state.update(Message::ToggleTopping(11));
    let after = state.order().toppings.clone();
    assert_eq!(sorted(after.clone()), sorted(before));
    assert_eq!(after, vec![10, 12, 11]);
}

#[test]
fn toggle_twice_of_an_absent_topping_changes_nothing() {
    let mut state = kiosk();
    state.update(Message::ToggleTopping(10));
    let before = state.order().clone();
    state.update(Message::ToggleTopping(12));
    state.update(Message::ToggleTopping(12));
    assert_eq!(state.order(), &before);
}

#[test]
fn toggle_topping_removes_every_occurrence() {
    let mut toppings = vec![5, 7, 5, 9, 5];
    toggle_topping(&mut toppings, 5);
    assert_eq!(toppings, vec![7, 9]);
    toggle_topping(&mut toppings, 5);
    assert_eq!(toppings, vec![7, 9, 5]);
    let mut none: Vec<i32> = vec![];
    toggle_topping(&mut none, 1);
    assert_eq!(none, vec![1]);
    toggle_topping(&mut none, 1);
    assert_eq!(none, Vec::<i32>::new());
}

#[test]
fn toppings_never_hold_one_id_twice() {
    let mut state = kiosk();
    for id in [10, 11, 12, 10, 10, 12, 11, 11, 10, 12, 12] {
        state.update(Message::ToggleTopping(id));
        let toppings = sorted(state.order().toppings.clone());
        let mut distinct = toppings.clone();
        distinct.dedup();
        assert_eq!(toppings, distinct);
    }
}

#[test]
fn menu_leads_to_the_order_page_only() {
    let mut state = kiosk();
    assert_eq!(state.update(Message::SetPage(Page::OrderComplete)), Effect::Nothing);
    assert_eq!(state.page(), Page::Menu);
    assert_eq!(state.update(Message::SetPage(Page::Menu)), Effect::Nothing);
    assert_eq!(state.page(), Page::Menu);
    assert_eq!(state.generation(), 0);
    assert_eq!(state.update(Message::SetPage(Page::Order)), Effect::Nothing);
    assert_eq!(state.page(), Page::Order);
    assert_eq!(state.generation(), 1);
}

#[test]
fn order_page_leads_to_the_thank_you_page_only() {
    let mut state = kiosk();
    state.update(Message::SetPage(Page::Order));
    assert_eq!(state.update(Message::SetPage(Page::Menu)), Effect::Nothing);
    assert_eq!(state.page(), Page::Order);
    assert_eq!(state.update(Message::SetPage(Page::Order)), Effect::Nothing);
    assert_eq!(state.page(), Page::Order);
    assert_eq!(state.generation(), 1);
}

#[test]
fn paying_submits_the_order_once_and_asks_for_the_wait() {
    let mut state = kiosk();
    state.update(Message::SelectBase(2));
    state.update(Message::ToggleTopping(10));
    state.update(Message::SelectSpiceLevel(1));
    state.update(Message::SetPage(Page::Order));
    let effect = state.update(Message::SetPage(Page::OrderComplete));
    assert_eq!(
        effect,
        Effect::Submit {
            order: Order { base: 2, toppings: vec![11, 10], spice_level: 1 },
            generation: 2,
            delay_ms: 5000,
        }
    );
    assert_eq!(RESET_DELAY_MS, 5000);
    assert_eq!(state.page(), Page::OrderComplete);
    assert_eq!(state.generation(), 2);
    assert_eq!(state.update(Message::SetPage(Page::OrderComplete)), Effect::Nothing);
    assert_eq!(state.generation(), 2);
}

#[test]
fn order_can_still_be_changed_on_the_order_page() {
    let mut state = kiosk();
    state.update(Message::SetPage(Page::Order));
    state.update(Message::SelectBase(2));
    state.update(Message::ToggleTopping(11));
    state.update(Message::SelectSpiceLevel(1));
    assert_eq!(state.order(), &Order { base: 2, toppings: vec![], spice_level: 1 });
}

#[test]
fn order_is_frozen_on_the_thank_you_page() {
    let (mut state, _) = paid_kiosk();
    let submitted = state.order().clone();
    assert_eq!(state.update(Message::SelectBase(1)), Effect::Nothing);
    assert_eq!(state.update(Message::ToggleTopping(12)), Effect::Nothing);
    assert_eq!(state.update(Message::ToggleTopping(10)), Effect::Nothing);
    assert_eq!(state.update(Message::SelectSpiceLevel(1)), Effect::Nothing);
    assert_eq!(state.order(), &submitted);
    assert_eq!(state.page(), Page::OrderComplete);
}

#[test]
fn thank_you_page_cannot_be_left_by_hand() {
    let (mut state, generation) = paid_kiosk();
    for page in [Page::Menu, Page::Order, Page::OrderComplete] {
        assert_eq!(state.update(Message::SetPage(page)), Effect::Nothing);
        assert_eq!(state.page(), Page::OrderComplete);
        assert_eq!(state.generation(), generation);
    }
}

#[test]
fn reset_after_the_delay_returns_to_the_menu_with_the_default_order() {
    let (mut state, generation) = paid_kiosk();
    assert_eq!(state.order().base, 2);
    let effect = state.update(Message::ResetDue { generation, waited_ms: 5000 });
    assert_eq!(effect, Effect::Nothing);
    assert_eq!(state.page(), Page::Menu);
    assert_eq!(state.order(), &kiosk_config().default_order);
    assert_eq!(state.generation(), generation + 1);
}

#[test]
fn reset_before_the_delay_keeps_waiting() {
    let (mut state, generation) = paid_kiosk();
    let submitted = state.order().clone();
    let effect = state.update(Message::ResetDue { generation, waited_ms: 4999 });
    assert_eq!(effect, Effect::Wait { generation, delay_ms: 1 });
    assert_eq!(state.page(), Page::OrderComplete);
    assert_eq!(state.order(), &submitted);
    let effect = state.update(Message::ResetDue { generation, waited_ms: 0 });
    assert_eq!(effect, Effect::Wait { generation, delay_ms: 5000 });
    assert_eq!(state.page(), Page::OrderComplete);
    let effect = state.update(Message::ResetDue { generation, waited_ms: u64::MAX });
    assert_eq!(effect, Effect::Nothing);
    assert_eq!(state.page(), Page::Menu);
}

#[test]
fn reset_of_an_earlier_stage_entry_is_discarded() {
    let (mut state, generation) = paid_kiosk();
    let stale = Message::ResetDue { generation: generation - 1, waited_ms: 60_000 };
    assert_eq!(state.update(stale), Effect::Nothing);
    assert_eq!(state.page(), Page::OrderComplete);
    state.update(Message::ResetDue { generation, waited_ms: 5000 });
    assert_eq!(state.page(), Page::Menu);
    // The same report, once more: the stage has been left since.
    let menu_generation = state.generation();
    state.update(Message::ToggleTopping(12));
    let order = state.order().clone();
    assert_eq!(
        state.update(Message::ResetDue { generation, waited_ms: 9000 }),
        Effect::Nothing
    );
    assert_eq!(state.page(), Page::Menu);
    assert_eq!(state.order(), &order);
    assert_eq!(state.generation(), menu_generation);
}

#[test]
fn reset_is_ignored_on_the_menu_and_on_the_order_page() {
    let mut state = kiosk();
    state.update(Message::SelectBase(2));
    assert_eq!(state.update(Message::ResetDue { generation: 0, waited_ms: 9000 }), Effect::Nothing);
    assert_eq!(state.order().base, 2);
    state.update(Message::SetPage(Page::Order));
    assert_eq!(state.update(Message::ResetDue { generation: 1, waited_ms: 9000 }), Effect::Nothing);
    assert_eq!(state.page(), Page::Order);
    assert_eq!(state.order().base, 2);
}

#[test]
fn failed_submission_is_shown_until_the_menu_returns() {
    let (mut state, generation) = paid_kiosk();
    assert!(!state.undelivered());
    assert_eq!(state.update(Message::SubmitFailed { generation: generation + 5 }), Effect::Nothing);
    assert!(!state.undelivered());
    assert_eq!(state.update(Message::SubmitFailed { generation }), Effect::Nothing);
    assert!(state.undelivered());
    assert_eq!(state.page(), Page::OrderComplete);
    state.update(Message::ResetDue { generation, waited_ms: 5000 });
    assert_eq!(state.page(), Page::Menu);
    assert!(!state.undelivered());
}

#[test]
fn failed_submission_is_ignored_outside_the_thank_you_page() {
    let mut state = kiosk();
    state.update(Message::SubmitFailed { generation: 0 });
    assert!(!state.undelivered());
}

#[test]
fn kiosk_cycles_without_end() {
    let mut state = kiosk();
    for round in 0..5u64 {
        assert_eq!(state.page(), Page::Menu);
        assert_eq!(state.order(), &kiosk_config().default_order);
        state.update(Message::ToggleTopping(12));
        state.update(Message::SetPage(Page::Order));
        let effect = state.update(Message::SetPage(Page::OrderComplete));
        let generation = 3 * round + 2;
        assert_eq!(
            effect,
            Effect::Submit {
                order: Order { base: 1, toppings: vec![11, 12], spice_level: 0 },
                generation,
                delay_ms: 5000,
            }
        );
        state.update(Message::ResetDue { generation, waited_ms: 5001 });
    }
    assert_eq!(state.generation(), 15);
}
