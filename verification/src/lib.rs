//! The logic of VpncBar, a tray front-end for vpnc and openconnect.

pub mod app;
pub mod args;
pub mod backend;
pub mod cli;
pub mod config_import;
pub mod laws;
pub mod model;
pub mod number;
pub mod privilege;
pub mod scan;
pub mod secrets;
pub mod strings;
pub mod sys;
pub mod text;
pub mod text_map;
pub mod tray;
pub mod tray_icon;
pub mod tunnel;
pub mod ui;
