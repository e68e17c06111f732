//! The images that a kiosk needs before it can show its pages.
//!
//! The host lists the images that it has and fetches the ones it lacks;
//! [`missing_assets`] tells which those are.

use crate::menu::{Config, ConfigView, Menu};
use vstd::prelude::*;

verus! {

/// The names held by a list of strings, in order.
pub open spec fn names(list: Seq<String>) -> Seq<Seq<char>> {
    list.map_values(|name: String| name@)
}

/// The images that every kiosk shows, whatever the menu.
pub open spec fn fixed_assets() -> Seq<Seq<char>> {
    seq![
        "Logo.png"@,
        "background.png"@,
        "spice.png"@,
        "bowl.png"@,
        "applepay.png"@,
        "googlepay.png"@,
    ]
}

/// The images that a kiosk with the given configuration shows: those of
/// the toppings, those of the bases, and the fixed ones, in this order. An
/// image that is used twice is listed twice.
pub open spec fn required_assets(config: ConfigView) -> Seq<Seq<char>> {
    config.menu.toppings.map_values(|t: crate::menu::ToppingsView| t.image_url)
        + config.menu.bases.map_values(|b: crate::menu::BaseView| b.image_url) + fixed_assets()
}

/// Holds of every name that is not among `existing`.
pub open spec fn absent_from(existing: Seq<Seq<char>>) -> spec_fn(Seq<char>) -> bool {
    |name: Seq<char>| !existing.contains(name)
}

/// The required images that are not among `existing`, in the order in
/// which they are required.
pub open spec fn missing(config: ConfigView, existing: Seq<Seq<char>>) -> Seq<Seq<char>> {
    required_assets(config).filter(absent_from(existing))
}

/// Tells whether `name` is among `existing`.
fn is_present(existing: &Vec<String>, name: &String) -> (present: bool)
    ensures
        present == names(existing@).contains(name@),
{
    let mut i: usize = 0;
    while i < existing.len()
        invariant
            i <= existing.len(),
            forall|j: int| 0 <= j < i ==> names(existing@)[j] != name@,
        decreases existing.len() - i,
    {
        if existing[i] == *name {
            assert(names(existing@)[i as int] == name@);
            return true;
        }
        i += 1;
    }
    false
}

/// Appends to `wanted` each of `candidates` that is not among `existing`.
fn append_missing(wanted: &mut Vec<String>, candidates: &Vec<String>, existing: &Vec<String>)
    ensures
        names(final(wanted)@) == names(old(wanted)@) + names(candidates@).filter(
            absent_from(names(existing@)),
        ),
{
    let ghost before = names(wanted@);
    let ghost all = names(candidates@);
    let ghost absent = absent_from(names(existing@));
    let mut i: usize = 0;
    assert(all.take(0).filter(absent) =~= Seq::<Seq<char>>::empty()) by {
        reveal(Seq::filter);
    }
    assert(before + Seq::<Seq<char>>::empty() =~= before);
    while i < candidates.len()
        invariant
            i <= candidates.len(),
            all == names(candidates@),
            absent == absent_from(names(existing@)),
            names(wanted@) == before + all.take(i as int).filter(absent),
        decreases candidates.len() - i,
    {
        let ghost sofar = all.take(i as int);
        let ghost held = names(wanted@);
        proof {
            assert(all.take(i + 1) =~= sofar.push(candidates@[i as int]@));
            sofar.lemma_filter_push(candidates@[i as int]@, absent);
        }
        if !is_present(existing, &candidates[i]) {
            let name = candidates[i].clone();
            wanted.push(name);
            assert(names(wanted@) =~= held.push(name@));
            assert(held.push(name@) =~= before + sofar.filter(absent).push(name@));
        }
        i += 1;
    }
    assert(all.take(i as int) =~= all);
}

impl Menu {
    /// The images of the toppings, in menu order.
    pub fn topping_images(&self) -> (images: Vec<String>)
        ensures
            names(images@) == self@.toppings.map_values(|t: crate::menu::ToppingsView| t.image_url),
    {
        let ghost all = self@.toppings.map_values(|t: crate::menu::ToppingsView| t.image_url);
        let mut images: Vec<String> = Vec::new();
        let mut i: usize = 0;
        while i < self.toppings.len()
            invariant
                i <= self.toppings.len(),
                all == self@.toppings.map_values(|t: crate::menu::ToppingsView| t.image_url),
                names(images@) == all.take(i as int),
            decreases self.toppings.len() - i,
        {
            let ghost held = names(images@);
            let image = self.toppings[i].image_url.clone();
            images.push(image);
            assert(names(images@) =~= held.push(image@));
            i += 1;
            assert(names(images@) =~= all.take(i as int));
        }
        assert(all.take(i as int) =~= all);
        images
    }

    /// The images of the bases, in menu order.
    pub fn base_images(&self) -> (images: Vec<String>)
        ensures
            names(images@) == self@.bases.map_values(|b: crate::menu::BaseView| b.image_url),
    {
        let ghost all = self@.bases.map_values(|b: crate::menu::BaseView| b.image_url);
        let mut images: Vec<String> = Vec::new();
        let mut i: usize = 0;
        while i < self.bases.len()
            invariant
                i <= self.bases.len(),
                all == self@.bases.map_values(|b: crate::menu::BaseView| b.image_url),
                names(images@) == all.take(i as int),
            decreases self.bases.len() - i,
        {
            let ghost held = names(images@);
            let image = self.bases[i].image_url.clone();
            images.push(image);
            assert(names(images@) =~= held.push(image@));
            i += 1;
            assert(names(images@) =~= all.take(i as int));
        }
        assert(all.take(i as int) =~= all);
        images
    }
}

/// The images that every kiosk shows, whatever the menu.
pub fn fixed_asset_names() -> (fixed: Vec<String>)
    ensures
        names(fixed@) == fixed_assets(),
{
    let mut fixed: Vec<String> = Vec::new();
    fixed.push("Logo.png".to_owned());
    fixed.push("background.png".to_owned());
    fixed.push("spice.png".to_owned());
    fixed.push("bowl.png".to_owned());
    fixed.push("applepay.png".to_owned());
    fixed.push("googlepay.png".to_owned());
    assert(names(fixed@) =~= fixed_assets());
    fixed
}

/// Lists the images that a kiosk has to fetch: each required image that is
/// not among `existing`, in the order in which they are required.
pub fn missing_assets(config: &Config, existing: &Vec<String>) -> (wanted: Vec<String>)
    ensures
        names(wanted@) == missing(config@, names(existing@)),
{
    let toppings = config.menu.topping_images();
    let bases = config.menu.base_images();
    let fixed = fixed_asset_names();
    let mut wanted: Vec<String> = Vec::new();
    append_missing(&mut wanted, &toppings, existing);
    append_missing(&mut wanted, &bases, existing);
    append_missing(&mut wanted, &fixed, existing);
    proof {
        let absent = absent_from(names(existing@));
        let t = names(toppings@);
        let b = names(bases@);
        let f = names(fixed@);
        Seq::filter_distributes_over_add(t, b, absent);
        Seq::filter_distributes_over_add(t + b, f, absent);
        assert(names(wanted@) =~= (t + b + f).filter(absent));
    }
    wanted
}

} // verus!
