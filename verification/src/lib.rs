//! A verified span-lifecycle store for an HTTP span-synthesis service.
//!
//! Clients open spans, merge partial updates into them, and close them; a
//! reaper force-closes spans whose time-to-live has elapsed. This crate holds
//! the store itself together with the merge, expiry and hand-off logic; the
//! HTTP routing and the wire-level exporter live outside it.

pub mod api;
pub mod attrs;
mod clock;
pub mod hexfmt;
pub mod laws;
pub mod numfmt;
pub mod span;
pub mod span_store;
