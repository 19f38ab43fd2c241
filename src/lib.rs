//! A name registry and a subscription broker that pays for entries in it,
//! written as two contracts whose every entry point is a verified transition
//! from a stored state and a call to a new state and a list of outgoing messages.
pub mod common;
pub mod governance;
pub mod name_service;
