//! A cell that is written once and read many times.
//!
//! `cell` holds the cell itself, `phase` the rules that its methods decide
//! by, `global` the traits for payload types with a fallback and for global
//! instances. `model` describes the operations on one cell as callers run
//! them side by side, and `laws` proves what holds of every such run.

pub mod cell;
pub mod error;
pub mod global;
pub mod laws;
pub mod model;
pub mod phase;

pub use cell::OnceInit;
pub use error::OnceInitError;
pub use global::StaticDefault;
pub use global::UninitGlobal;
pub use global::UninitGlobalHolder;
pub use phase::OnceInitState;
