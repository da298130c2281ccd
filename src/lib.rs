//! Turn-based survival simulation on a fixed grid: terrain, static anomalies,
//! ground items, a weight-limited inventory and extraction contracts.

pub mod grid;
pub mod messages;
pub mod item;
pub mod inventory;
pub mod message_log;
pub mod turn;
pub mod contract;
pub mod zone;
pub mod session;
pub mod rng;
pub mod effects;
pub mod anomalies;
pub mod pipeline;
pub mod map_data;
pub mod actions;
pub mod editor;
