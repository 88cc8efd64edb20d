//! What the operations are for, stated of what goes into them and what comes out.

pub mod commands;
pub mod controller;
pub mod drawing;
pub mod forms;
pub mod groups;
pub mod importing;
pub mod launching;
pub mod openconnect_args;
pub mod profiles;
pub mod rows;
pub mod shown;
pub mod texts;
pub mod tunnels;
pub mod values;
pub mod vpnc_config;
