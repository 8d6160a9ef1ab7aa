//! Routing core of a load-balancing reverse proxy: backend selection, health
//! bookkeeping and configuration hot reload, as verified state transitions.

pub mod balancer;
pub mod config;
pub mod health;
pub mod laws;
pub mod mock_backend;
pub mod proxy;
pub mod state;
pub mod table;
pub mod uri;
pub mod watcher;
