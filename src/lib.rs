//! Selective mouse-movement forwarding for click-through overlay windows.
//!
//! The library holds the decisions of the forwarding engine: which surfaces
//! are subscribed, when the single global mouse hook must be installed or
//! removed, how a raw hook payload is decoded, and which surfaces receive a
//! synthesized move message for a given pointer position. The operating
//! system calls themselves are made by the caller, who hands their results
//! back as plain values.

pub mod geometry;
pub mod event;
pub mod handle;
pub mod dispatch;
pub mod registry;
pub mod engine;
