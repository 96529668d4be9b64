//! Token modifier bits: bit `n` stands for the modifier at position `n` of the legend.

use vstd::prelude::*;

verus! {

pub const DEFAULT_LIBRARY: u32 = 1;

} // verus!
