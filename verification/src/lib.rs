//! Verified core of the dynamic function row daemon.

pub mod backlight;
pub mod battery;
pub mod clock;
pub mod config;
pub mod layers;
pub mod main_loop;
pub mod memory_graph;
pub mod rate_limit;
pub mod reconnect;
pub mod rotate;
pub mod sensors;
pub mod session_detect;
pub mod text;
pub mod volume;
pub mod widgets;
pub mod workspace;
