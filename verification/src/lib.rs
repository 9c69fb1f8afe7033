//! Type system and resolution engine for a small expression language that
//! rewrites structured events, together with the event transforms and the
//! planning of test environments that are built around it.
//!
//! Every function of this crate is verified against the contract in its
//! header. The few items that call outside code say so in their
//! documentation; their contracts are believed, not proved.

pub mod span;
pub mod kind;
pub mod type_def;
pub mod text;
pub mod assoc;
pub mod value;
pub mod event;
pub mod state;
pub mod context;
pub mod diagnostic;
pub mod parser;
pub mod expression;
pub mod compiled;
pub mod program;
pub mod conversion;
pub mod split;
pub mod sample;
pub mod integration;
pub mod stop;
