//! Event-driven paper-trading engine: exact decimal money, market-data gating,
//! a risk engine with a kill-switch, and an order/fill execution engine.

pub mod bus;
pub mod config;
pub mod error;
pub mod event;
pub mod execution;
pub mod market;
pub mod money;
pub mod portfolio;
pub mod resilient;
pub mod risk;
pub mod strategy;
