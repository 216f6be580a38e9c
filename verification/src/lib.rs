//! neovibe: the decisions behind a GTK4 shell that hosts a Neovide editor pane.
//!
//! Every module here works on plain values. Toolkit objects, GPU contexts and
//! the Neovim connection stay with the program that drives this library: it
//! reports what happened and performs what the library decides.

pub mod clock;
pub mod frames;
pub mod geometry;
pub mod glproc;
pub mod keys;
pub mod lifecycle;
pub mod live;
pub mod number;
pub mod perf;
pub mod pump;
pub mod report;
pub mod shell;
pub mod surface;
pub mod sweep;
pub mod text;
pub mod theme;
pub mod ticks;
pub mod workload;

