//! What the routing table promises as a whole, across operations.

pub mod config;
pub mod counting;
pub mod debounce;
pub mod health;
pub mod proxy;
pub mod reload;
pub mod selection;
pub mod trace;
pub mod views;
