//! The match server.

use vstd::prelude::*;

pub mod api;
pub mod atcoder;
pub mod history;
pub mod laws;
pub mod model;
pub mod polling;
pub mod pool;
pub mod rooms;

verus! {

} // verus!
