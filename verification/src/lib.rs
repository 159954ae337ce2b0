//! Relay chain sync strategy.
//!
//! The strategy is a state machine: each event is a call of a function of
//! [`sync::ChainSync`], which changes the state and adds to a [`context::Context`] what the
//! node around it is to do. It does no input or output of its own.
pub mod context;
pub mod effects;
pub mod hash;
pub mod laws;
pub mod message;
pub mod model;
pub mod peer;
pub mod status;
pub mod sync;
mod table;
