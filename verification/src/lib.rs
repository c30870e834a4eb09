//! A verified core for the Anticater VK01 knob: the firmware's record
//! formats, the layout model, the slot-table checks and the settings state.

pub mod text;
pub mod firmware;
pub mod protocol;
pub mod fd;
pub mod binding;
pub mod config;
pub mod device;
pub mod api;
pub mod apps;
pub mod commands;
pub mod daemon;
pub mod gui;
pub mod probe;
