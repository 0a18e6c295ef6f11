//! Verified core of a memory-pressure monitor: parsing of kernel memory
//! statistics, ranking of processes, exact byte formatting, configuration
//! defaults, AI request/response handling and the interactive view's state machine.

pub mod text;
pub mod numfmt;
pub mod ai;
pub mod config;
pub mod collect;
pub mod tui;
