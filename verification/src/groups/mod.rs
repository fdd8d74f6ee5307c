//! Group layer: the shared group shapes and the concrete group types.
pub mod aact;
pub mod common;
