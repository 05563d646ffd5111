//! Crate constants.
use vstd::prelude::*;

pub mod default;

verus! {

/// 0-9
pub const DIGIT_ALPHABET: [char; 10] = ['0', '1', '2', '3', '4', '5', '6', '7', '8', '9'];

} // verus!
