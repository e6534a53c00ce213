//! Decoder and pointer mapper for a slot-based multitouch event stream.
//!
//! The library reassembles per-finger touch records from interleaved
//! slot-selection and axis-update events, and, at each frame boundary,
//! selects the dominant touch and maps its calibrated coordinates into
//! an absolute pointer command.

pub mod input_event_mouse;
pub mod pointer;
pub mod trackpad;
pub mod trackpad_behavior;
