//! The core of a status bar for window managers that read the root window's
//! name: segments that compute values and decorate them, the table that
//! routes real-time signals to segments, the scheduler that decides when each
//! segment is refreshed, and the compositor that joins the segments' texts
//! and publishes only what changed.
//!
//! Refreshing follows one shared tick: its period is the greatest common
//! divisor of the segments' intervals, and on each tick only the segments
//! whose own interval has passed are refreshed. Signals refresh their
//! segments at once.

pub mod color;
pub mod config;
pub mod scheduler;
pub mod segments;
pub mod signals;
pub mod status_bar;
