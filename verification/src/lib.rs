//! The state authority of a small election service: participants register and
//! vote once per election, administrators open sessions and create elections.
//! Every transition is a verified function on one owned [`state::State`].

pub mod admin;
pub mod authority;
pub mod common;
pub mod election;
pub mod error;
pub mod frontend;
pub mod counting;
pub mod laws;
pub mod model;
pub mod participant;
pub mod record;
pub mod state;
pub mod token;
