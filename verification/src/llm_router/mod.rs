//! The router of LLM calls: completions by quality tier, and structured decisions.

pub mod adapters;
pub mod audit;
pub mod budget;
pub mod decision;
pub mod decisions;
pub mod log;
pub mod partition;
pub mod provider;
pub mod router;
pub mod service;
pub mod settings;
pub mod tiers;
pub mod wire;
