//! The menu-bar daemon's decisions: which key moved, what the tray says,
//! and what a menu selection asks for.

pub mod keytap;
pub mod tray;
