//! Core logic of a two-button, 5x5 LED-matrix display loop.
//!
//! The runtime consists of two cooperative tasks: a button sampler that maps
//! the two input lines' electrical levels to a discrete state and publishes it
//! to a single-slot, freshest-value signal, and a display driver that polls
//! the signal, keeps the last observed state, and renders one frame of the
//! matching pattern by row/column multiplexing. This library holds the
//! verified decision core of both tasks: the level-to-state mapping, the
//! signal's overwrite/take semantics, the pattern table, and the exact
//! sequence of line commands that paints one frame. The hardware lines, the
//! timer and the scheduler live outside the library and execute the commands
//! the library plans.

pub mod pattern;
pub mod scan;
pub mod signal;
pub mod state;
pub mod tasks;
