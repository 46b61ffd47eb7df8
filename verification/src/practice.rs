//! Practising on problems without an opponent.

use vstd::prelude::*;

pub mod files;
pub mod list;
pub mod results;
pub mod storage;
pub mod tree;
pub mod view;

verus! {

} // verus!
