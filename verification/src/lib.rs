//! Verified core of a desktop status bar: the pipeline that carries values
//! from background producers to the display elements that show them.

pub mod bar;
pub mod battery;
pub mod broadcast;
pub mod config;
pub mod decimal;
pub mod element;
pub mod laws;
pub mod mailbox;
pub mod modules;
pub mod rbar;
pub mod text;
