//! Reactive, locale-aware message resolution: a validated language
//! identifier, the controller that owns the current language and keeps it in
//! step with its persistence backend and with other contexts, and a message
//! handle that is recomputed when the language changes and memoizes its
//! attribute lookups.

pub mod cookie;
pub mod langid;
pub mod message;
pub mod query;
pub mod state;
pub mod text;
