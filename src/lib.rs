//! Decision logic of a Honey Badger BFT consensus engine: the batch summary
//! a block is built from, the threshold-signature sealing sessions, the wire
//! envelope of peer messages, the block seal, the timer and epoch triggers,
//! message targeting, key generation steps and the settings of a validator's
//! configuration.
use vstd::prelude::*;

pub mod batch;
pub mod block_table;
pub mod codec;
pub mod committee;
pub mod config;
pub mod engine;
pub mod seal;
pub mod sealing;
pub mod timing;

verus! {

} // verus!
