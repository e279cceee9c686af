//! The request-orchestration core of a chat relay bot: a self-refreshing
//! credential cache, prompt assembly over a conversation's stored history, the
//! merge of a fan-out over tracked characters into one ordered report, and the
//! reading of chat commands. Network, database and gateway work is left to the
//! caller, which hands these functions plain values.

use vstd::prelude::*;

pub mod command;
pub mod credential;
pub mod error;
pub mod profile;
pub mod prompt;
pub mod report;
pub mod store;
pub mod text;

verus! {

} // verus!
