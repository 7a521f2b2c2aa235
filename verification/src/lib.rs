//! Core logic of a status-notifier ("system tray") subsystem: bus-name
//! ownership, the watcher registry of tray items, the per-item menu
//! protocol client, and the menu layout model with its render plan.
//!
//! Everything here is pure state-machine and data-structure logic over
//! plain values.  The surrounding process performs the actual bus I/O,
//! feeds the resulting events into these types, and carries out the
//! actions they return.

pub mod bus_name;
pub mod dispatcher;
pub mod error;
pub mod menu;
pub mod owner;
pub mod registry;
pub mod render;
pub mod status_menu;
