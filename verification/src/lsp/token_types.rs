//! Token type numbers: positions in the list of token types of the legend.

use vstd::prelude::*;

verus! {

pub const KEYWORD: u32 = 0;

pub const NUMBER: u32 = 1;

pub const STRING: u32 = 2;

pub const OPERATOR: u32 = 3;

pub const VARIABLE: u32 = 4;

pub const FUNCTION: u32 = 5;

pub const METHOD: u32 = 6;

pub const PUNCTUATION: u32 = 7;

} // verus!
