//! Contest problems of AtCoder: reading them, practising on them, and matches on them between two
//! players, with the server that pairs the players and the client that plays.

use vstd::prelude::*;

pub mod cases;
pub mod conversion;
pub mod copying;
pub mod duel;
pub mod markdown;
pub mod math;
pub mod output;
pub mod outside;
pub mod practice;
pub mod problems;
pub mod response;
pub mod runner;
pub mod samples;
pub mod seqs;
pub mod server;
pub mod statement;
pub mod strmap;
pub mod submissions;
pub mod text;

verus! {

} // verus!
