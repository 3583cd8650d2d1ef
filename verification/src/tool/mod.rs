//! The tools a model may call, their registry, and the rules that guard both.

pub mod args;
pub mod built_in_overrides;
pub mod declarative_seed;
pub mod entity;
pub mod error;
pub mod policy;
pub mod providers;
pub mod race;
pub mod review;
pub mod service;
pub mod slugs;
pub mod system_tools;
pub mod tools;
pub mod wire;
