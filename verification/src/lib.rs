//! Agent-based epidemic simulation over a partitioned integer grid.
//!
//! The crate models a synthetic population moving across a grid split into
//! housing, transport and work areas, advancing in hourly ticks. Each tick the
//! scheduler relocates or moves agents, spreads infection by cell adjacency,
//! advances the per-agent disease lifecycle, and snapshots aggregate counts.
//! A small dispatch layer selects which simulation request a worker engine
//! should execute from a shared request payload.

pub mod agent;
pub mod allocation_map;
pub mod config;
pub mod constants;
pub mod disease;
pub mod disease_tracker;
pub mod dispatch;
pub mod epidemiology_simulation;
pub mod events;
pub mod geography;
pub mod random;
