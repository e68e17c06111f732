//! What the order page shows of an order: the name of its base, the images
//! of its toppings in one or two rows, and one spice icon for each level up
//! to the chosen one.

use crate::assets::names;
use crate::menu::{Config, MenuView, Order, OrderView, SpiceLevel, ToppingsId};
use vstd::prelude::*;

verus! {

/// The largest number of toppings that are shown in a single row.
pub const SINGLE_ROW_MAX: usize = 4;

/// What the order page shows of an order.
#[derive(Clone, Debug, PartialEq, Eq)]
pub struct Preview {
    pub base_name: String,
    pub top_row: Vec<String>,
    pub bottom_row: Vec<String>,
    pub spice_icons: u32,
}

/// A preview as a mathematical value.
pub struct PreviewView {
    pub base_name: Seq<char>,
    pub top_row: Seq<Seq<char>>,
    pub bottom_row: Seq<Seq<char>>,
    pub spice_icons: u32,
}

impl View for Preview {
    type V = PreviewView;

    open spec fn view(&self) -> PreviewView {
        PreviewView {
            base_name: self.base_name@,
            top_row: names(self.top_row@),
            bottom_row: names(self.bottom_row@),
            spice_icons: self.spice_icons,
        }
    }
}

/// The image of the topping with the given id.
pub open spec fn image_of(menu: MenuView, id: ToppingsId) -> Seq<char> {
    match menu.find_topping(id) {
        Some(t) => t.image_url,
        None => Seq::empty(),
    }
}

/// The images of the given toppings, in their order.
pub open spec fn images_of(menu: MenuView, toppings: Seq<ToppingsId>) -> Seq<Seq<char>> {
    Seq::new(toppings.len(), |i: int| image_of(menu, toppings[i]))
}

/// How many of `count` toppings stand in the top row: all of them up to
/// [`SINGLE_ROW_MAX`], and the smaller half of more.
pub open spec fn top_row_len(count: int) -> int {
    if count > SINGLE_ROW_MAX {
        count / 2
    } else {
        count
    }
}

/// How many spice icons stand for a spice level: one for level zero, one
/// more for each level above it, and none for a level below zero.
pub open spec fn spice_icons_of(level: i32) -> int {
    if level >= 0 {
        level + 1
    } else {
        0
    }
}

/// What the order page shows of an order.
pub open spec fn preview_of(menu: MenuView, order: OrderView) -> PreviewView {
    let images = images_of(menu, order.toppings);
    let split = top_row_len(images.len() as int);
    PreviewView {
        base_name: match menu.find_base(order.base) {
            Some(b) => b.name,
            None => Seq::empty(),
        },
        top_row: images.take(split),
        bottom_row: images.skip(split),
        spice_icons: spice_icons_of(order.spice_level) as u32,
    }
}

/// Puts together what the order page shows of an order. The order's
/// references must all be on the menu.
pub fn preview(config: &Config, order: &Order) -> (shown: Preview)
    requires
        order@.refers_into(config@.menu),
    ensures
        shown@ == preview_of(config@.menu, order@),
{
    let ghost menu = config@.menu;
    let ghost images = images_of(menu, order@.toppings);
    let base = config.menu.find_base(order.base).unwrap();
    let count = order.toppings.len();
    let split = if count > SINGLE_ROW_MAX {
        count / 2
    } else {
        count
    };
    let mut top_row: Vec<String> = Vec::new();
    let mut bottom_row: Vec<String> = Vec::new();
    let mut i: usize = 0;
    while i < count
        invariant
            i <= count,
            split <= count,
            count == order.toppings.len(),
            menu == config@.menu,
            order@.refers_into(menu),
            images == images_of(menu, order@.toppings),
            i <= split ==> names(top_row@) == images.take(i as int) && names(bottom_row@)
                == Seq::<Seq<char>>::empty(),
            i > split ==> names(top_row@) == images.take(split as int) && names(bottom_row@)
                == images.subrange(split as int, i as int),
        decreases count - i,
    {
        assert(menu.has_topping(order@.toppings[i as int]));
        let topping = config.menu.find_topping(order.toppings[i]).unwrap();
        let image = topping.image_url.clone();
        assert(image@ == images[i as int]);
        let ghost top = names(top_row@);
        let ghost bottom = names(bottom_row@);
        if i < split {
            top_row.push(image);
            assert(names(top_row@) =~= top.push(image@));
            assert(names(top_row@) =~= images.take(i + 1));
        } else {
            bottom_row.push(image);
            assert(names(bottom_row@) =~= bottom.push(image@));
            assert(names(bottom_row@) =~= images.subrange(split as int, i + 1));
        }
        i += 1;
    }
    assert(names(top_row@) =~= images.take(split as int));
    assert(names(bottom_row@) =~= images.skip(split as int));
    let spice_icons: u32 = if order.spice_level >= 0 {
        order.spice_level as u32 + 1
    } else {
        0
    };
    Preview { base_name: base.name.clone(), top_row, bottom_row, spice_icons }
}

/// The two rows of a preview hold the images of the order's toppings, each
/// once and in the order of the toppings, the top row first.
pub proof fn lemma_rows_hold_every_topping(menu: MenuView, order: OrderView)
    ensures
        preview_of(menu, order).top_row + preview_of(menu, order).bottom_row == images_of(
            menu,
            order.toppings,
        ),
        order.toppings.len() <= SINGLE_ROW_MAX ==> preview_of(menu, order).bottom_row.len() == 0,
{
    let images = images_of(menu, order.toppings);
    let split = top_row_len(images.len() as int);
    assert(images.take(split) + images.skip(split) =~= images);
}

impl SpiceLevel {
    /// Tells whether the level is lit when `chosen` is the chosen spice
    /// level: every level up to the chosen one is.
    pub fn is_lit(&self, chosen: i32) -> (lit: bool)
        ensures
            lit == (self.level <= chosen),
    {
        self.level <= chosen
    }
}

impl Order {
    /// Tells whether the topping is chosen.
    pub fn has_topping(&self, id: ToppingsId) -> (chosen: bool)
        ensures
            chosen == self@.toppings.contains(id),
    {
        let mut i: usize = 0;
        while i < self.toppings.len()
            invariant
                i <= self.toppings.len(),
                forall|j: int| 0 <= j < i ==> self@.toppings[j] != id,
            decreases self.toppings.len() - i,
        {
            if self.toppings[i] == id {
                return true;
            }
            i += 1;
        }
        false
    }
}

} // verus!
