//! Client core of a desktop notice receiver: resolves broker addresses,
//! tracks the broker connection as a state machine and turns inbound
//! frames into application events.

pub mod config;
pub mod message;
pub mod mqtt;
