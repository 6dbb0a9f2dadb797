//! A restaurant split into front of house and back of house, showing how a
//! module tree controls what callers can reach.

use vstd::prelude::*;

pub mod hosting;

verus! {

/// A breakfast order: the toast can be chosen, the seasonal fruit cannot.
pub struct Breakfast {
    pub toast: String,
    seasonal_fruit: String,
}

impl Breakfast {
    /// The toast the guest chose.
    pub closed spec fn spec_toast(&self) -> Seq<char> {
        self.toast@
    }

    /// The fruit the kitchen picked.
    pub closed spec fn spec_fruit(&self) -> Seq<char> {
        self.seasonal_fruit@
    }

    /// The summer breakfast: the guest's toast with peaches on the side.
    pub fn summer(toast: &str) -> (b: Breakfast)
        ensures
            b.spec_toast() == toast@,
            b.spec_fruit() == "peaches"@,
    {
        Breakfast { toast: String::from_str(toast), seasonal_fruit: String::from_str("peaches") }
    }
}

/// The starters on offer.
pub enum Appetizer {
    Soup,
    Salad,
}

#[allow(dead_code)]
fn serve_order() {
}

#[allow(dead_code)]
fn cook_order() {
}

#[allow(dead_code)]
fn take_order() {
}

#[allow(dead_code)]
fn take_payment() {
}

#[allow(dead_code)]
fn fix_inncorrect_order() {
    cook_order();
    serve_order();
}

/// A guest joins the waitlist a few times over and picks two starters.
pub fn eat_at_restaurant() {
    hosting::add_to_waitlist();
    hosting::add_to_waitlist();
    hosting::add_to_waitlist();

    let _order1 = Appetizer::Soup;
    let _order2 = Appetizer::Salad;
}

} // verus!
