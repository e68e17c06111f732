//! What an order costs: the price of its base and the charge of each of
//! its toppings, in hundredths of the currency unit and never in floating
//! point.

use crate::menu::{BaseId, Cents, Config, MenuView, Order, OrderView, Toppings, ToppingsId};
use vstd::prelude::*;
use vstd::seq_lib::{to_multiset_contains, to_multiset_len, to_multiset_remove};

verus! {

/// What a topping with the given price adds to an order: the price where
/// there is one above zero, and nothing otherwise.
pub open spec fn charge_of(price: Option<Cents>) -> int {
    match price {
        Some(p) => if p > 0 {
            p as int
        } else {
            0
        },
        None => 0,
    }
}

impl MenuView {
    /// The price of the base with the given id.
    pub open spec fn base_price(self, id: BaseId) -> int {
        match self.find_base(id) {
            Some(b) => b.price as int,
            None => 0,
        }
    }

    /// What the topping with the given id adds to an order.
    pub open spec fn topping_charge(self, id: ToppingsId) -> int {
        match self.find_topping(id) {
            Some(t) => charge_of(t.price),
            None => 0,
        }
    }
}

/// The sum of the charges of the given toppings, one term for each place
/// in the sequence.
pub open spec fn toppings_total(menu: MenuView, toppings: Seq<ToppingsId>) -> int
    decreases toppings.len(),
{
    if toppings.len() == 0 {
        0
    } else {
        toppings_total(menu, toppings.drop_last()) + menu.topping_charge(toppings.last())
    }
}

/// The total of an order: the price of its base plus the charges of its
/// toppings.
pub open spec fn order_total(menu: MenuView, order: OrderView) -> int {
    menu.base_price(order.base) + toppings_total(menu, order.toppings)
}

/// A sum of topping charges is never negative, and no term of it exceeds
/// the largest price.
pub proof fn lemma_toppings_total_bounds(menu: MenuView, toppings: Seq<ToppingsId>)
    ensures
        0 <= toppings_total(menu, toppings) <= toppings.len() * i64::MAX,
    decreases toppings.len(),
{
    if toppings.len() > 0 {
        lemma_toppings_total_bounds(menu, toppings.drop_last());
    }
}

/// Taking one topping out of a sequence takes its charge out of the sum.
proof fn lemma_total_without(menu: MenuView, toppings: Seq<ToppingsId>, i: int)
    requires
        0 <= i < toppings.len(),
    ensures
        toppings_total(menu, toppings) == toppings_total(menu, toppings.remove(i))
            + menu.topping_charge(toppings[i]),
    decreases toppings.len(),
{
    if i == toppings.len() - 1 {
        assert(toppings.remove(i) =~= toppings.drop_last());
    } else {
        lemma_total_without(menu, toppings.drop_last(), i);
        assert(toppings.remove(i).drop_last() =~= toppings.drop_last().remove(i));
        assert(toppings.remove(i).last() == toppings.last());
    }
}

/// The total of an order does not depend on the order in which its
/// toppings were chosen: two orders with the same base and the same
/// toppings, each as often in one as in the other, cost the same.
pub proof fn lemma_total_ignores_display_order(menu: MenuView, a: OrderView, b: OrderView)
    requires
        a.base == b.base,
        a.toppings.to_multiset() == b.toppings.to_multiset(),
    ensures
        order_total(menu, a) == order_total(menu, b),
{
    lemma_toppings_total_ignores_order(menu, a.toppings, b.toppings);
}

/// Two sequences of toppings that hold the same toppings, each as often in
/// one as in the other, have the same sum of charges.
pub proof fn lemma_toppings_total_ignores_order(
    menu: MenuView,
    a: Seq<ToppingsId>,
    b: Seq<ToppingsId>,
)
    requires
        a.to_multiset() == b.to_multiset(),
    ensures
        toppings_total(menu, a) == toppings_total(menu, b),
    decreases a.len(),
{
    to_multiset_len(a);
    to_multiset_len(b);
    if a.len() > 0 {
        let last = a.len() - 1;
        let x = a[last];
        to_multiset_contains(a, x);
        to_multiset_contains(b, x);
        let j = choose|j: int| 0 <= j < b.len() && b[j] == x;
        to_multiset_remove(a, last);
        to_multiset_remove(b, j);
        assert(a.remove(last) =~= a.drop_last());
        lemma_toppings_total_ignores_order(menu, a.drop_last(), b.remove(j));
        lemma_total_without(menu, b, j);
    }
}

impl Toppings {
    /// The price to show for the topping and to charge for it: `None`
    /// where it is free.
    pub fn listed_price(&self) -> (listed: Option<Cents>)
        ensures
            listed == match self.price {
                Some(p) => if p > 0 {
                    Some(p)
                } else {
                    None
                },
                None => None::<Cents>,
            },
    {
        match self.price {
            Some(p) => if p > 0 {
                Some(p)
            } else {
                None
            },
            None => None,
        }
    }

    /// What the topping adds to an order.
    pub fn charge(&self) -> (c: Cents)
        ensures
            c == charge_of(self.price),
    {
        match self.listed_price() {
            Some(p) => p,
            None => 0,
        }
    }
}

/// Computes the total of an order whose references are all on the menu.
/// The menu's prices are authoritative: nothing but ids is read from the
/// order.
pub fn compute_total(config: &Config, order: &Order) -> (total: i128)
    requires
        order@.refers_into(config@.menu),
    ensures
        total == order_total(config@.menu, order@),
{
    let ghost menu = config@.menu;
    let base = config.menu.find_base(order.base).unwrap();
    let mut sum: i128 = 0;
    let mut i: usize = 0;
    while i < order.toppings.len()
        invariant
            i <= order.toppings.len(),
            menu == config@.menu,
            order@.refers_into(menu),
            sum == toppings_total(menu, order@.toppings.take(i as int)),
            0 <= sum <= i * i64::MAX,
        decreases order.toppings.len() - i,
    {
        assert(menu.has_topping(order@.toppings[i as int]));
        let topping = config.menu.find_topping(order.toppings[i]).unwrap();
        let charge = topping.charge();
        assert(order@.toppings.take(i + 1).drop_last() =~= order@.toppings.take(i as int));
        sum = sum + charge as i128;
        i += 1;
    }
    assert(order@.toppings.take(i as int) =~= order@.toppings);
    base.price as i128 + sum
}

/// One line of an order's summary: what is charged for, and how much.
#[derive(Clone, Debug, PartialEq, Eq)]
pub struct SummaryLine {
    pub name: String,
    pub price: Cents,
}

/// A summary line as a mathematical value.
pub struct SummaryLineView {
    pub name: Seq<char>,
    pub price: Cents,
}

impl View for SummaryLine {
    type V = SummaryLineView;

    open spec fn view(&self) -> SummaryLineView {
        SummaryLineView { name: self.name@, price: self.price }
    }
}

/// What an order is made of, as shown before payment: the base, then each
/// topping that has a price, then the total.
#[derive(Clone, Debug, PartialEq, Eq)]
pub struct Summary {
    pub lines: Vec<SummaryLine>,
    pub total: i128,
}

/// A summary as a mathematical value.
pub struct SummaryView {
    pub lines: Seq<SummaryLineView>,
    pub total: int,
}

impl View for Summary {
    type V = SummaryView;

    open spec fn view(&self) -> SummaryView {
        SummaryView {
            lines: self.lines@.map_values(|l: SummaryLine| l@),
            total: self.total as int,
        }
    }
}

/// The summary lines of the given toppings: one for each topping that is
/// on the menu with a price above zero, in the order of the toppings.
pub open spec fn topping_lines(menu: MenuView, toppings: Seq<ToppingsId>) -> Seq<SummaryLineView>
    decreases toppings.len(),
{
    if toppings.len() == 0 {
        Seq::empty()
    } else {
        let before = topping_lines(menu, toppings.drop_last());
        match menu.find_topping(toppings.last()) {
            Some(t) => if charge_of(t.price) > 0 {
                before.push(SummaryLineView { name: t.name, price: t.price.unwrap() })
            } else {
                before
            },
            None => before,
        }
    }
}

/// The summary lines of an order: the base first, then its toppings.
pub open spec fn summary_lines(menu: MenuView, order: OrderView) -> Seq<SummaryLineView> {
    match menu.find_base(order.base) {
        Some(b) => seq![SummaryLineView { name: b.name, price: b.price }] + topping_lines(
            menu,
            order.toppings,
        ),
        None => topping_lines(menu, order.toppings),
    }
}

/// The sum of the prices of the given lines.
pub open spec fn lines_total(lines: Seq<SummaryLineView>) -> int
    decreases lines.len(),
{
    if lines.len() == 0 {
        0
    } else {
        lines_total(lines.drop_last()) + lines.last().price
    }
}

/// The prices of the toppings' summary lines add up to the toppings' total.
pub proof fn lemma_topping_lines_add_up(menu: MenuView, toppings: Seq<ToppingsId>)
    ensures
        lines_total(topping_lines(menu, toppings)) == toppings_total(menu, toppings),
    decreases toppings.len(),
{
    if toppings.len() > 0 {
        lemma_topping_lines_add_up(menu, toppings.drop_last());
        let before = topping_lines(menu, toppings.drop_last());
        match menu.find_topping(toppings.last()) {
            Some(t) => {
                if charge_of(t.price) > 0 {
                    let line = SummaryLineView { name: t.name, price: t.price.unwrap() };
                    assert(before.push(line).drop_last() =~= before);
                }
            },
            None => {},
        }
    }
}

/// Putting a line in front of others adds its price to their sum.
proof fn lemma_lines_total_prepend(first: SummaryLineView, rest: Seq<SummaryLineView>)
    ensures
        lines_total(seq![first] + rest) == first.price + lines_total(rest),
    decreases rest.len(),
{
    let all = seq![first] + rest;
    if rest.len() == 0 {
        assert(all.drop_last() =~= rest);
        assert(all.last() == first);
    } else {
        lemma_lines_total_prepend(first, rest.drop_last());
        assert(all.drop_last() =~= seq![first] + rest.drop_last());
        assert(all.last() == rest.last());
    }
}

/// The prices of the lines of an order's summary add up to the order's
/// total: what the kiosk shows is what the server charges.
pub proof fn lemma_summary_adds_up(menu: MenuView, order: OrderView)
    ensures
        lines_total(summary_lines(menu, order)) == order_total(menu, order),
{
    lemma_topping_lines_add_up(menu, order.toppings);
    match menu.find_base(order.base) {
        Some(b) => {
            lemma_lines_total_prepend(
                SummaryLineView { name: b.name, price: b.price },
                topping_lines(menu, order.toppings),
            );
        },
        None => {},
    }
}

/// Lists what an order is charged for and computes its total. The order's
/// references must all be on the menu.
pub fn summarize(config: &Config, order: &Order) -> (summary: Summary)
    requires
        order@.refers_into(config@.menu),
    ensures
        summary@.lines == summary_lines(config@.menu, order@),
        summary@.total == order_total(config@.menu, order@),
        summary@.total == lines_total(summary@.lines),
{
    let ghost menu = config@.menu;
    let base = config.menu.find_base(order.base).unwrap();
    let ghost first = SummaryLineView { name: base@.name, price: base@.price };
    let mut lines: Vec<SummaryLine> = Vec::new();
    lines.push(SummaryLine { name: base.name.clone(), price: base.price });
    let mut i: usize = 0;
    while i < order.toppings.len()
        invariant
            i <= order.toppings.len(),
            menu == config@.menu,
            order@.refers_into(menu),
            lines@.map_values(|l: SummaryLine| l@) == seq![first] + topping_lines(
                menu,
                order@.toppings.take(i as int),
            ),
        decreases order.toppings.len() - i,
    {
        assert(menu.has_topping(order@.toppings[i as int]));
        let topping = config.menu.find_topping(order.toppings[i]).unwrap();
        let ghost before = topping_lines(menu, order@.toppings.take(i as int));
        let ghost shown = lines@.map_values(|l: SummaryLine| l@);
        assert(order@.toppings.take(i + 1).drop_last() =~= order@.toppings.take(i as int));
        assert(order@.toppings.take(i + 1).last() == order@.toppings[i as int]);
        match topping.listed_price() {
            Some(price) => {
                let line = SummaryLine { name: topping.name.clone(), price };
                assert(line@ == SummaryLineView { name: topping@.name, price });
                lines.push(line);
                assert(lines@.map_values(|l: SummaryLine| l@) =~= shown.push(line@));
                assert(shown.push(line@) =~= seq![first] + before.push(line@));
            },
            None => {},
        }
        i += 1;
    }
    assert(order@.toppings.take(i as int) =~= order@.toppings);
    proof {
        lemma_summary_adds_up(menu, order@);
    }
    Summary { lines, total: compute_total(config, order) }
}

/// An amount as it is written: a sign, whole currency units and
/// hundredths.
#[derive(Clone, Copy, Debug, PartialEq, Eq, Structural)]
pub struct Written {
    pub negative: bool,
    pub units: u128,
    pub hundredths: u8,
}

/// Splits an amount into its sign, its whole currency units and its
/// hundredths.
pub fn written(amount: i128) -> (w: Written)
    ensures
        w.negative == (amount < 0),
        w.hundredths < 100,
        w.units * 100 + w.hundredths == if amount < 0 {
            -amount
        } else {
            amount as int
        },
{
    let magnitude: u128 = if amount < 0 {
        (-(amount + 1)) as u128 + 1
    } else {
        amount as u128
    };
    Written {
        negative: amount < 0,
        units: magnitude / 100,
        hundredths: (magnitude % 100) as u8,
    }
}

} // verus!
