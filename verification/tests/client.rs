use calmram::assets::{fixed_asset_names, missing_assets};
use calmram::display::{preview, Preview};
use calmram::fault::Fault;
use calmram::handshake::{complete, HandshakeError, Received};
use calmram::kiosk::Page;
use calmram::menu::{Base, Config, Menu, Order, SpiceLevel, Toppings};

fn topping(id: i32, image: &str) -> Toppings {
    Toppings { name: format!("topping {id}"), price: None, image_url: image.to_string(), id }
}

fn client_config() -> Config {
    Config {
        menu: Menu {
            bases: vec![
                Base { name: "Rice".to_string(), price: 500, image_url: "rice.png".to_string(), id: 1 },
                Base { name: "Noodles".to_string(), price: 725, image_url: "noodles.png".to_string(), id: 2 },
            ],
            toppings: vec![
                topping(10, "cheese.png"),
                topping(11, "salsa.png"),
                topping(12, "corn.png"),
                topping(13, "beans.png"),
                topping(14, "salsa.png"),
            ],
            spice_levels: vec![
                SpiceLevel { name: "Mild".to_string(), level: 0 },
                SpiceLevel { name: "Medium".to_string(), level: 1 },
                SpiceLevel { name: "Hot".to_string(), level: 2 },
            ],
        },
        default_order: Order { base: 1, toppings: vec![], spice_level: 0 },
    }
}

fn strings(names: &[&str]) -> Vec<String> {
    names.iter().map(|n| n.to_string()).collect()
}

#[test]
fn handshake_with_a_well_formed_config_starts_on_the_menu() {
    let state = complete(Received::Config(client_config())).unwrap();
    assert_eq!(state.page(), Page::Menu);
    assert_eq!(state.order(), &client_config().default_order);
    assert_eq!(state.config(), &client_config());
}

#[test]
fn handshake_refuses_a_config_that_breaks_its_invariant() {
    let mut unknown_default = client_config();
    unknown_default.default_order.base = 9;
    assert_eq!(
        complete(Received::Config(unknown_default)).err(),
        Some(HandshakeError::InvalidConfig)
    );
    let mut repeated_id = client_config();
    repeated_id.menu.toppings.push(topping(10, "other.png"));
    assert_eq!(
        complete(Received::Config(repeated_id)).err(),
        Some(HandshakeError::InvalidConfig)
    );
}

#[test]
fn handshake_fails_on_anything_but_a_config() {
    assert_eq!(complete(Received::Malformed).err(), Some(HandshakeError::Malformed));
    assert_eq!(complete(Received::NotText).err(), Some(HandshakeError::Unexpected));
    assert_eq!(complete(Received::Closed).err(), Some(HandshakeError::ConnectionLost));
}

#[test]
fn handshake_errors_have_their_kind_of_fault() {
    assert_eq!(HandshakeError::Malformed.fault(), Fault::Protocol);
    assert_eq!(HandshakeError::Unexpected.fault(), Fault::Protocol);
    assert_eq!(HandshakeError::ConnectionLost.fault(), Fault::Connection);
    assert_eq!(HandshakeError::InvalidConfig.fault(), Fault::Reference);
}

#[test]
fn fixed_assets_are_the_six_images_of_every_kiosk() {
    assert_eq!(
        fixed_asset_names(),
        strings(&[
            "Logo.png",
            "background.png",
            "spice.png",
            "bowl.png",
            "applepay.png",
            "googlepay.png"
        ])
    );
}

#[test]
fn with_nothing_there_every_asset_is_missing() {
    assert_eq!(
        missing_assets(&client_config(), &vec![]),
        strings(&[
            "cheese.png",
            "salsa.png",
            "corn.png",
            "beans.png",
            "salsa.png",
            "rice.png",
            "noodles.png",
            "Logo.png",
            "background.png",
            "spice.png",
            "bowl.png",
            "applepay.png",
            "googlepay.png"
        ])
    );
}

#[test]
fn assets_that_are_there_are_not_fetched() {
    let existing = strings(&["salsa.png", "noodles.png", "bowl.png", "unrelated.txt", "Logo.png"]);
    assert_eq!(
        missing_assets(&client_config(), &existing),
        strings(&[
            "cheese.png",
            "corn.png",
            "beans.png",
            "rice.png",
            "background.png",
            "spice.png",
            "applepay.png",
            "googlepay.png"
        ])
    );
}

#[test]
fn with_everything_there_nothing_is_missing() {
    let config = client_config();
    let existing = missing_assets(&config, &vec![]);
    assert_eq!(missing_assets(&config, &existing), Vec::<String>::new());
}

#[test]
fn images_are_listed_in_menu_order() {
    let config = client_config();
    assert_eq!(
        config.menu.topping_images(),
        strings(&["cheese.png", "salsa.png", "corn.png", "beans.png", "salsa.png"])
    );
    assert_eq!(config.menu.base_images(), strings(&["rice.png", "noodles.png"]));
}

#[test]
fn preview_of_up_to_four_toppings_has_one_row() {
    let order = Order { base: 2, toppings: vec![12, 10, 13, 11], spice_level: 1 };
    assert_eq!(
        preview(&client_config(), &order),
        Preview {
            base_name: "Noodles".to_string(),
            top_row: strings(&["corn.png", "cheese.png", "beans.png", "salsa.png"]),
            bottom_row: vec![],
            spice_icons: 2,
        }
    );
}

#[test]
fn preview_of_five_toppings_has_two_rows() {
    let order = Order { base: 1, toppings: vec![10, 11, 12, 13, 14], spice_level: 2 };
    assert_eq!(
        preview(&client_config(), &order),
        Preview {
            base_name: "Rice".to_string(),
            top_row: strings(&["cheese.png", "salsa.png"]),
            bottom_row: strings(&["corn.png", "beans.png", "salsa.png"]),
            spice_icons: 3,
        }
    );
}

#[test]
fn preview_without_toppings_is_empty_but_for_base_and_spice() {
    let order = Order { base: 1, toppings: vec![], spice_level: 0 };
    assert_eq!(
        preview(&client_config(), &order),
        Preview { base_name: "Rice".to_string(), top_row: vec![], bottom_row: vec![], spice_icons: 1 }
    );
}

#[test]
fn spice_icons_count_from_level_zero() {
    let mut config = client_config();
    config.menu.spice_levels.push(SpiceLevel { name: "None".to_string(), level: -1 });
    config.menu.spice_levels.push(SpiceLevel { name: "Most".to_string(), level: i32::MAX });
    let none = Order { base: 1, toppings: vec![], spice_level: -1 };
    assert_eq!(preview(&config, &none).spice_icons, 0);
    let most = Order { base: 1, toppings: vec![], spice_level: i32::MAX };
    assert_eq!(preview(&config, &most).spice_icons, 1 << 31);
}

#[test]
fn spice_levels_up_to_the_chosen_one_are_lit() {
    let config = client_config();
    let lit: Vec<bool> = config.menu.spice_levels.iter().map(|l| l.is_lit(1)).collect();
    assert_eq!(lit, vec![true, true, false]);
}

#[test]
fn has_topping_tells_what_is_chosen() {
    let order = Order { base: 1, toppings: vec![12, 10], spice_level: 0 };
    assert!(order.has_topping(10));
    assert!(order.has_topping(12));
    assert!(!order.has_topping(11));
    assert!(!Order { base: 1, toppings: vec![], spice_level: 0 }.has_topping(10));
}
