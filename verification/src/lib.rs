//! Core of a tiling window manager: the monitor/workspace/client model, the
//! master-stack layout engine, and the event dispatcher that turns protocol
//! events into state changes and display commands.
//!
//! Everything here is pure bookkeeping over plain values; the process that
//! talks to the display server feeds events in and carries the returned
//! commands out.

pub mod config;
pub mod dispatch;
pub mod events;
pub mod layout;
pub mod wm;
