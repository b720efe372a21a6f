//! A lock-free, three-state boolean whose value, once computed and stored, is cached
//! until it is reset.
//!
//! The state codes and the decisions taken on them live in `state`; the shared
//! cell built on an atomic byte lives in `quick_bool`.

pub mod state;
pub mod quick_bool;

pub use quick_bool::QuickBool;
