//! Prediction of the brightness from ambient light and screen contents.

pub mod controller;
pub mod data;

use vstd::prelude::*;

verus! {

/// How brightness answers to more ambient light.
#[derive(Clone, Copy, Debug, PartialEq, Eq, Structural)]
pub enum AlsDirection {
    Increasing,
    Decreasing,
}

} // verus!
