//! A small verified library of classic introductory Rust pieces: a typestate
//! blog workflow, a line-searching utility, a quota tracker, a counter and a
//! shoe filter, and — at its heart — a cooperative task executor with a FIFO
//! ready queue, waker handles, and timers, modelled so that its scheduling
//! rules are proved rather than assumed.

use vstd::prelude::*;

pub mod async_notes;
pub mod blog;
pub mod closures;
pub mod demos;
pub mod executor;
pub mod iterators;
pub mod kinds;
pub mod limits;
pub mod minigrep;
pub mod restaurant;
pub mod utils;

pub use crate::kinds::PrimaryColor;
pub use crate::kinds::SecondaryColor;
pub use crate::utils::mix;

verus! {

/// An axis-aligned rectangle; `can_hold` compares both extents strictly.
#[derive(Debug)]
pub struct Rectangle {
    pub width: u32,
    pub height: u32,
}

impl Rectangle {
    /// True exactly when `other` fits strictly inside `self` in both dimensions.
    pub fn can_hold(&self, other: &Rectangle) -> (r: bool)
        ensures
            r == (self.width > other.width && self.height > other.height),
    {
        self.width > other.width && self.height > other.height
    }
}

/// A guessing-game guess, kept within 1..=100 by construction.
pub struct Guess {
    value: i32,
}

impl Guess {
    /// The number this guess carries.
    pub closed spec fn spec_value(&self) -> i32 {
        self.value
    }

    /// Builds a guess; out-of-range numbers are not accepted.
    pub fn new(value: i32) -> (g: Guess)
        requires
            1 <= value <= 100,
        ensures
            g.spec_value() == value,
    {
        Guess { value }
    }
}

/// Prefixes the given name with a fixed salutation.
pub fn greeting(name: &str) -> (r: String)
    ensures
        r@ == "Hello! "@ + name@,
{
    let mut s = String::from_str("Hello! ");
    s.append(name);
    s
}

/// Adds two, reporting the sum through a `Result`.
pub fn add_two(a: i32) -> (r: Result<i32, String>)
    requires
        a + 2 <= i32::MAX,
    ensures
        r is Ok && r->Ok_0 == a + 2,
{
    Ok(a + 2)
}

/// Adds two by delegating to the shared adding helper.
pub fn add_two_other(a: i32) -> (r: i32)
    requires
        a + 2 <= i32::MAX,
    ensures
        r == a + 2,
{
    internal_adder(a, 2)
}

/// Sums two numbers whose sum stays within `i32`.
pub fn internal_adder(a: i32, b: i32) -> (r: i32)
    requires
        i32::MIN <= a + b <= i32::MAX,
    ensures
        r == a + b,
{
    a + b
}

} // verus!
