//! Core of a terminal system monitor whose widgets are written in Lua.
//!
//! The library holds the decisions of the monitor: how the widgets that a
//! configuration registers are turned into display rows and ordered, how a
//! usage bar is drawn, how colour names and configuration locations are
//! resolved, what the `sysmon` Lua module reports of disks and the GPU, how
//! processes are ranked by memory use and when they are sampled, what the
//! screen shows around the widgets, and what the lookups and calls made of
//! the Lua state mean for the panel.
pub mod text;
pub mod widgets;
pub mod engine;
pub mod bar;
pub mod color;
pub mod sensors;
pub mod display;
pub mod config;
pub mod processes;
pub mod schedule;

