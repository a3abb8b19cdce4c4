//! Mergeable summaries of monotonic counters.
//!
//! A counter is sampled as `(timestamp, value)` points. A
//! [`summary::CounterSummary`] absorbs points in order of time, banks the
//! value lost at every counter reset, and can be merged with the summary of
//! a later stretch of the same series. A
//! [`trans_state::CounterSummaryTransState`] buffers points and partial
//! summaries that arrive in any order and folds them into one summary;
//! [`aggregate`] drives it row by row. [`metrics`] and [`accessors`] read
//! deltas and rates off a finished summary, and [`laws`] states what holds
//! of all of this together.
//!
//! Values are IEEE 754 doubles held as bit patterns ([`double::Double`]), so
//! that every contract is stated over integers and named double operations.
//! The regression statistics that a host may keep beside a summary are not
//! part of it; a summary keeps the number of its points.

pub mod accessors;
pub mod aggregate;
pub mod double;
pub mod error;
pub mod fold;
pub mod laws;
pub mod method;
pub mod metrics;
pub mod order;
pub mod point;
pub mod range;
pub mod summary;
pub mod trans_state;
