//! The client side of a match.

use vstd::prelude::*;

pub mod commands;
pub mod history;
pub mod http;
pub mod laws;
pub mod matchmaking;
pub mod model;
pub mod presence;
pub mod project;
pub mod settings;
pub mod view;
pub mod wording;

verus! {

} // verus!
