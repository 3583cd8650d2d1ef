//! The rules behind two services: a router that puts prompts and typed decisions to language models, and a registry of
//! tools that a model may call.
//!
//! [`llm_router`] checks a request against the limits of its tier, picks the model to ask and the one to fall back on,
//! reads what a provider replies, and says what is recorded of a call and what its caller is told. [`tool`] takes a tool
//! from draft to active, decides which call runs and how, and keeps what is fetched on public hosts. Both work on plain
//! values: a program around the library does the network, the database and the clock, and hands their answers back in.
//!
//! [`text`], [`json`] and [`number`] hold what both state their rules over.

pub mod collect;
pub mod json;
pub mod llm_router;
pub mod number;
pub mod rpc;
pub mod text;
pub mod tool;
