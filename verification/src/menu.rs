//! The menu configuration: what can be ordered, and the order itself.
//!
//! Every data type has a view, a mathematical value in which a `Vec` is a
//! `Seq` and a `String` is a `Seq<char>`. The contracts of the crate are
//! stated over these views.

use vstd::prelude::*;

verus! {

/// Identifies a base within a menu.
pub type BaseId = i32;

/// Identifies a topping within a menu.
pub type ToppingsId = i32;

/// An amount of money in hundredths of the currency unit.
pub type Cents = i64;

/// A base that an order is built on.
#[derive(Clone, Debug, PartialEq, Eq)]
pub struct Base {
    pub name: String,
    pub price: Cents,
    pub image_url: String,
    pub id: BaseId,
}

/// A topping that can be added to an order. One without a price, or with a
/// price that is not above zero, is free.
#[derive(Clone, Debug, PartialEq, Eq)]
pub struct Toppings {
    pub name: String,
    pub price: Option<Cents>,
    pub image_url: String,
    pub id: ToppingsId,
}

/// One of the spice levels on offer.
#[derive(Clone, Debug, PartialEq, Eq)]
pub struct SpiceLevel {
    pub name: String,
    pub level: i32,
}

/// Everything that can be ordered, in display order.
#[derive(Clone, Debug, PartialEq, Eq)]
pub struct Menu {
    pub bases: Vec<Base>,
    pub toppings: Vec<Toppings>,
    pub spice_levels: Vec<SpiceLevel>,
}

/// A selection of one base, some toppings and one spice level. The toppings
/// are kept in the order in which they were chosen, which matters for
/// display only.
#[derive(Debug, PartialEq, Eq)]
pub struct Order {
    pub base: BaseId,
    pub toppings: Vec<ToppingsId>,
    pub spice_level: i32,
}

/// The menu together with the order that a kiosk starts from.
#[derive(Clone, Debug, PartialEq, Eq)]
pub struct Config {
    pub menu: Menu,
    pub default_order: Order,
}

/// A base as a mathematical value.
pub struct BaseView {
    pub name: Seq<char>,
    pub price: Cents,
    pub image_url: Seq<char>,
    pub id: BaseId,
}

/// A topping as a mathematical value.
pub struct ToppingsView {
    pub name: Seq<char>,
    pub price: Option<Cents>,
    pub image_url: Seq<char>,
    pub id: ToppingsId,
}

/// A spice level as a mathematical value.
pub struct SpiceLevelView {
    pub name: Seq<char>,
    pub level: i32,
}

/// A menu as a mathematical value: three sequences, in menu order.
pub struct MenuView {
    pub bases: Seq<BaseView>,
    pub toppings: Seq<ToppingsView>,
    pub spice_levels: Seq<SpiceLevelView>,
}

/// An order as a mathematical value.
pub struct OrderView {
    pub base: BaseId,
    pub toppings: Seq<ToppingsId>,
    pub spice_level: i32,
}

/// A configuration as a mathematical value.
pub struct ConfigView {
    pub menu: MenuView,
    pub default_order: OrderView,
}

impl View for Base {
    type V = BaseView;

    open spec fn view(&self) -> BaseView {
        BaseView { name: self.name@, price: self.price, image_url: self.image_url@, id: self.id }
    }
}

impl View for Toppings {
    type V = ToppingsView;

    open spec fn view(&self) -> ToppingsView {
        ToppingsView {
            name: self.name@,
            price: self.price,
            image_url: self.image_url@,
            id: self.id,
        }
    }
}

impl View for SpiceLevel {
    type V = SpiceLevelView;

    open spec fn view(&self) -> SpiceLevelView {
        SpiceLevelView { name: self.name@, level: self.level }
    }
}

impl View for Menu {
    type V = MenuView;

    open spec fn view(&self) -> MenuView {
        MenuView {
            bases: self.bases@.map_values(|b: Base| b@),
            toppings: self.toppings@.map_values(|t: Toppings| t@),
            spice_levels: self.spice_levels@.map_values(|l: SpiceLevel| l@),
        }
    }
}

impl View for Order {
    type V = OrderView;

    open spec fn view(&self) -> OrderView {
        OrderView { base: self.base, toppings: self.toppings@, spice_level: self.spice_level }
    }
}

impl View for Config {
    type V = ConfigView;

    open spec fn view(&self) -> ConfigView {
        ConfigView { menu: self.menu@, default_order: self.default_order@ }
    }
}

impl Clone for Order {
    fn clone(&self) -> (copy: Order)
        ensures
            copy@ == self@,
    {
        let toppings = self.toppings.clone();
        assert(toppings@ =~= self.toppings@);
        Order { base: self.base, toppings, spice_level: self.spice_level }
    }
}

impl MenuView {
    /// The ids of the bases, in menu order.
    pub open spec fn base_ids(self) -> Seq<BaseId> {
        self.bases.map_values(|b: BaseView| b.id)
    }

    /// The ids of the toppings, in menu order.
    pub open spec fn topping_ids(self) -> Seq<ToppingsId> {
        self.toppings.map_values(|t: ToppingsView| t.id)
    }

    /// The spice levels on offer, in menu order.
    pub open spec fn levels(self) -> Seq<i32> {
        self.spice_levels.map_values(|l: SpiceLevelView| l.level)
    }

    /// Some base has the given id.
    pub open spec fn has_base(self, id: BaseId) -> bool {
        self.base_ids().contains(id)
    }

    /// Some topping has the given id.
    pub open spec fn has_topping(self, id: ToppingsId) -> bool {
        self.topping_ids().contains(id)
    }

    /// The given spice level is on offer.
    pub open spec fn has_level(self, level: i32) -> bool {
        self.levels().contains(level)
    }

    /// The first base with the given id.
    pub open spec fn find_base(self, id: BaseId) -> Option<BaseView> {
        match self.base_ids().index_of_first(id) {
            Some(i) => Some(self.bases[i]),
            None => None,
        }
    }

    /// The first topping with the given id.
    pub open spec fn find_topping(self, id: ToppingsId) -> Option<ToppingsView> {
        match self.topping_ids().index_of_first(id) {
            Some(i) => Some(self.toppings[i]),
            None => None,
        }
    }

    /// The first spice level entry with the given level.
    pub open spec fn find_spice_level(self, level: i32) -> Option<SpiceLevelView> {
        match self.levels().index_of_first(level) {
            Some(i) => Some(self.spice_levels[i]),
            None => None,
        }
    }

    /// No id occurs twice within a list, and no base has a negative price.
    pub open spec fn well_formed(self) -> bool {
        &&& self.base_ids().no_duplicates()
        &&& self.topping_ids().no_duplicates()
        &&& self.levels().no_duplicates()
        &&& forall|i: int| 0 <= i < self.bases.len() ==> (#[trigger] self.bases[i]).price >= 0
    }
}

/// What an order can refer to that the menu does not hold.
#[derive(Clone, Copy, Debug, PartialEq, Eq, Structural)]
pub enum ReferenceError {
    UnknownBase(BaseId),
    UnknownTopping(ToppingsId),
    UnknownSpiceLevel(i32),
}

impl OrderView {
    /// The base, every topping and the spice level are on the menu.
    pub open spec fn refers_into(self, menu: MenuView) -> bool {
        &&& menu.has_base(self.base)
        &&& forall|i: int|
            0 <= i < self.toppings.len() ==> menu.has_topping(#[trigger] self.toppings[i])
        &&& menu.has_level(self.spice_level)
    }

    /// For each topping of the order, in order, whether the menu holds it.
    pub open spec fn toppings_on_menu(self, menu: MenuView) -> Seq<bool> {
        self.toppings.map_values(|t: ToppingsId| menu.has_topping(t))
    }

    /// The first reference of the order that the menu does not hold: the
    /// base comes before the toppings, the toppings come in their own order,
    /// and the spice level comes last.
    pub open spec fn first_unknown(self, menu: MenuView) -> Option<ReferenceError> {
        if !menu.has_base(self.base) {
            Some(ReferenceError::UnknownBase(self.base))
        } else {
            match self.toppings_on_menu(menu).index_of_first(false) {
                Some(i) => Some(ReferenceError::UnknownTopping(self.toppings[i])),
                None => if !menu.has_level(self.spice_level) {
                    Some(ReferenceError::UnknownSpiceLevel(self.spice_level))
                } else {
                    None
                },
            }
        }
    }

    /// Every reference is on the menu and no topping is chosen twice.
    pub open spec fn valid_for(self, menu: MenuView) -> bool {
        self.refers_into(menu) && self.toppings.no_duplicates()
    }
}

impl ConfigView {
    /// The menu is well formed and the default order is valid for it.
    pub open spec fn well_formed(self) -> bool {
        self.menu.well_formed() && self.default_order.valid_for(self.menu)
    }
}

/// Where `key` first occurs in `keys`: `at` is that place when `key` stands
/// there and nowhere before, and `keys.len()` stands for nowhere at all.
pub proof fn lemma_first_occurrence<T>(keys: Seq<T>, key: T, at: int)
    requires
        0 <= at <= keys.len(),
        forall|j: int| 0 <= j < at ==> keys[j] != key,
        at < keys.len() ==> keys[at] == key,
    ensures
        keys.contains(key) == (at < keys.len()),
        at < keys.len() ==> keys.index_of_first(key) == Some(at),
        at == keys.len() ==> keys.index_of_first(key).is_none(),
{
    keys.index_of_first_ensures(key);
    if at < keys.len() {
        assert(keys[at] == key);
    }
}

/// An order has no unknown reference exactly when it refers into the menu.
pub proof fn lemma_first_unknown_none(order: OrderView, menu: MenuView)
    ensures
        order.first_unknown(menu).is_none() == order.refers_into(menu),
{
    let on_menu = order.toppings_on_menu(menu);
    on_menu.index_of_first_ensures(false);
    if on_menu.index_of_first(false).is_none() {
        assert forall|i: int| 0 <= i < order.toppings.len() implies menu.has_topping(
            #[trigger] order.toppings[i],
        ) by {
            assert(on_menu[i] == menu.has_topping(order.toppings[i]));
            assert(on_menu.contains(on_menu[i]));
        }
    } else {
        let i = on_menu.index_of_first(false).unwrap();
        assert(on_menu[i] == menu.has_topping(order.toppings[i]));
    }
}

/// Tells whether no value occurs twice in `keys`.
pub fn all_distinct(keys: &Vec<i32>) -> (distinct: bool)
    ensures
        distinct == keys@.no_duplicates(),
{
    let mut j: usize = 0;
    while j < keys.len()
        invariant
            j <= keys.len(),
            forall|a: int, b: int| 0 <= a < b < j ==> keys[a] != keys[b],
        decreases keys.len() - j,
    {
        let mut i: usize = 0;
        while i < j
            invariant
                i <= j < keys.len(),
                forall|a: int| 0 <= a < i ==> keys[a] != keys[j as int],
            decreases j - i,
        {
            if keys[i] == keys[j] {
                return false;
            }
            i += 1;
        }
        j += 1;
    }
    assert forall|a: int, b: int|
        0 <= a < keys@.len() && 0 <= b < keys@.len() && a != b implies keys@[a] != keys@[b] by {
        if a < b {
            assert(keys[a] != keys[b]);
        } else {
            assert(keys[b] != keys[a]);
        }
    }
    true
}

impl Menu {
    /// Looks up a base by id. Where several bases share the id, the first
    /// in menu order is found.
    pub fn find_base(&self, id: BaseId) -> (found: Option<&Base>)
        ensures
            found.is_some() == self@.has_base(id),
            match found {
                Some(b) => self@.find_base(id) == Some(b@),
                None => self@.find_base(id).is_none(),
            },
    {
        let mut i: usize = 0;
        while i < self.bases.len()
            invariant
                i <= self.bases.len(),
                forall|j: int| 0 <= j < i ==> self@.base_ids()[j] != id,
            decreases self.bases.len() - i,
        {
            if self.bases[i].id == id {
                proof {
                    lemma_first_occurrence(self@.base_ids(), id, i as int);
                }
                return Some(&self.bases[i]);
            }
            i += 1;
        }
        proof {
            lemma_first_occurrence(self@.base_ids(), id, i as int);
        }
        None
    }

    /// Looks up a topping by id. Where several toppings share the id, the
    /// first in menu order is found.
    pub fn find_topping(&self, id: ToppingsId) -> (found: Option<&Toppings>)
        ensures
            found.is_some() == self@.has_topping(id),
            match found {
                Some(t) => self@.find_topping(id) == Some(t@),
                None => self@.find_topping(id).is_none(),
            },
    {
        let mut i: usize = 0;
        while i < self.toppings.len()
            invariant
                i <= self.toppings.len(),
                forall|j: int| 0 <= j < i ==> self@.topping_ids()[j] != id,
            decreases self.toppings.len() - i,
        {
            if self.toppings[i].id == id {
                proof {
                    lemma_first_occurrence(self@.topping_ids(), id, i as int);
                }
                return Some(&self.toppings[i]);
            }
            i += 1;
        }
        proof {
            lemma_first_occurrence(self@.topping_ids(), id, i as int);
        }
        None
    }

    /// Looks up a spice level entry by its level. Where several entries
    /// share the level, the first in menu order is found.
    pub fn find_spice_level(&self, level: i32) -> (found: Option<&SpiceLevel>)
        ensures
            found.is_some() == self@.has_level(level),
            match found {
                Some(l) => self@.find_spice_level(level) == Some(l@),
                None => self@.find_spice_level(level).is_none(),
            },
    {
        let mut i: usize = 0;
        while i < self.spice_levels.len()
            invariant
                i <= self.spice_levels.len(),
                forall|j: int| 0 <= j < i ==> self@.levels()[j] != level,
            decreases self.spice_levels.len() - i,
        {
            if self.spice_levels[i].level == level {
                proof {
                    lemma_first_occurrence(self@.levels(), level, i as int);
                }
                return Some(&self.spice_levels[i]);
            }
            i += 1;
        }
        proof {
            lemma_first_occurrence(self@.levels(), level, i as int);
        }
        None
    }

    /// The ids of the bases, in menu order.
    pub fn base_ids(&self) -> (ids: Vec<BaseId>)
        ensures
            ids@ == self@.base_ids(),
    {
        let mut ids: Vec<BaseId> = Vec::new();
        let mut i: usize = 0;
        while i < self.bases.len()
            invariant
                i <= self.bases.len(),
                ids@ == self@.base_ids().take(i as int),
            decreases self.bases.len() - i,
        {
            ids.push(self.bases[i].id);
            i += 1;
            assert(ids@ =~= self@.base_ids().take(i as int));
        }
        assert(self@.base_ids().take(i as int) =~= self@.base_ids());
        ids
    }

    /// The ids of the toppings, in menu order.
    pub fn topping_ids(&self) -> (ids: Vec<ToppingsId>)
        ensures
            ids@ == self@.topping_ids(),
    {
        let mut ids: Vec<ToppingsId> = Vec::new();
        let mut i: usize = 0;
        while i < self.toppings.len()
            invariant
                i <= self.toppings.len(),
                ids@ == self@.topping_ids().take(i as int),
            decreases self.toppings.len() - i,
        {
            ids.push(self.toppings[i].id);
            i += 1;
            assert(ids@ =~= self@.topping_ids().take(i as int));
        }
        assert(self@.topping_ids().take(i as int) =~= self@.topping_ids());
        ids
    }

    /// The spice levels on offer, in menu order.
    pub fn levels(&self) -> (levels: Vec<i32>)
        ensures
            levels@ == self@.levels(),
    {
        let mut levels: Vec<i32> = Vec::new();
        let mut i: usize = 0;
        while i < self.spice_levels.len()
            invariant
                i <= self.spice_levels.len(),
                levels@ == self@.levels().take(i as int),
            decreases self.spice_levels.len() - i,
        {
            levels.push(self.spice_levels[i].level);
            i += 1;
            assert(levels@ =~= self@.levels().take(i as int));
        }
        assert(self@.levels().take(i as int) =~= self@.levels());
        levels
    }

    /// Tells whether no base has a negative price.
    fn prices_are_non_negative(&self) -> (ok: bool)
        ensures
            ok == (forall|i: int|
                0 <= i < self@.bases.len() ==> (#[trigger] self@.bases[i]).price >= 0),
    {
        let mut i: usize = 0;
        while i < self.bases.len()
            invariant
                i <= self.bases.len(),
                forall|j: int| 0 <= j < i ==> (#[trigger] self@.bases[j]).price >= 0,
            decreases self.bases.len() - i,
        {
            if self.bases[i].price < 0 {
                assert(self@.bases[i as int].price < 0);
                return false;
            }
            i += 1;
        }
        true
    }

    /// Checks the menu's invariant: ids are unique within each list and no
    /// base has a negative price.
    pub fn is_well_formed(&self) -> (ok: bool)
        ensures
            ok == self@.well_formed(),
    {
        all_distinct(&self.base_ids()) && all_distinct(&self.topping_ids()) && all_distinct(
            &self.levels(),
        ) && self.prices_are_non_negative()
    }
}

impl Order {
    /// Checks that the base, every topping and the spice level are on the
    /// menu, and names the first reference that is not.
    pub fn check_references(&self, menu: &Menu) -> (checked: Result<(), ReferenceError>)
        ensures
            checked.is_ok() == self@.refers_into(menu@),
            checked == match self@.first_unknown(menu@) {
                Some(unknown) => Err::<(), ReferenceError>(unknown),
                None => Ok(()),
            },
    {
        proof {
            lemma_first_unknown_none(self@, menu@);
        }
        if menu.find_base(self.base).is_none() {
            return Err(ReferenceError::UnknownBase(self.base));
        }
        let ghost on_menu = self@.toppings_on_menu(menu@);
        let mut i: usize = 0;
        while i < self.toppings.len()
            invariant
                i <= self.toppings.len(),
                menu@.has_base(self.base),
                on_menu == self@.toppings_on_menu(menu@),
                forall|j: int| 0 <= j < i ==> on_menu[j] != false,
            decreases self.toppings.len() - i,
        {
            if menu.find_topping(self.toppings[i]).is_none() {
                proof {
                    lemma_first_occurrence(on_menu, false, i as int);
                }
                return Err(ReferenceError::UnknownTopping(self.toppings[i]));
            }
            i += 1;
        }
        proof {
            lemma_first_occurrence(on_menu, false, i as int);
        }
        if menu.find_spice_level(self.spice_level).is_none() {
            return Err(ReferenceError::UnknownSpiceLevel(self.spice_level));
        }
        Ok(())
    }

    /// Checks the order's invariant against a menu: every reference is on
    /// the menu and no topping is chosen twice.
    pub fn is_valid_for(&self, menu: &Menu) -> (ok: bool)
        ensures
            ok == self@.valid_for(menu@),
    {
        self.check_references(menu).is_ok() && all_distinct(&self.toppings)
    }
}

impl Config {
    /// Checks the configuration's invariant: a well-formed menu and a
    /// default order that is valid for it.
    pub fn is_well_formed(&self) -> (ok: bool)
        ensures
            ok == self@.well_formed(),
    {
        self.menu.is_well_formed() && self.default_order.is_valid_for(&self.menu)
    }
}

} // verus!
