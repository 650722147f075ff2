//! Per-process frame-pacing telemetry core.
//!
//! The library is the event-multiplexing and lifecycle engine of a frame-time
//! collector: it decides which kernel probe to bind for a target process,
//! tracks the set of attached processes together with the readiness queue of
//! a multiplexer, turns raw probe timestamps into frame durations, and holds
//! the control state and pending-event queue of the concurrent collection
//! gateway.  Everything here is pure state and arithmetic; the surrounding
//! process performs the kernel and descriptor work and feeds the results in
//! as plain values.

pub mod analyzer;
pub mod error;
pub mod frametime;
pub mod gateway;
pub mod record;
pub mod source;
pub mod uprobe;

pub use analyzer::Analyzer;
pub use error::AnalyzerError;
pub use frametime::FrameDuration;
pub use frametime::FrameTime;
pub use gateway::CollectorAction;
pub use gateway::CollectorState;
pub use gateway::PendingEvents;
pub use source::FrameSource;
pub use uprobe::ProbeAttachment;

use vstd::prelude::*;

verus! {

/// Identifier of a target OS process, as the foreign-call surface passes it.
pub type Pid = i32;

} // verus!
