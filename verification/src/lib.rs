//! Verified core of a multi-client collaborative canvas host.
//!
//! A single host process drives a fixed-rate tick loop; each tick it runs a
//! render callback once per connected session.  Sessions share one canvas: a
//! list of completed drawings plus one in-progress drawing slot per
//! registered participant.  This crate holds the session-state lifecycle,
//! the scheduling arithmetic, and the canvas data model and per-tick
//! interaction algorithm; transport and pixel rendering live outside it.

pub mod canvas;
pub mod client;
pub mod drawing;
pub mod engine;
pub mod geom;
pub mod host;
pub mod sched;
pub mod store;
