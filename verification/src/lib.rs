//! Scanning and presenting pending system updates on an Omarchy machine.

pub mod checker;
pub mod json;
pub mod runner;
pub mod text;
pub mod theme;
pub mod ui;
