pub use crate::time::now_ms;

pub mod json;
pub mod num;
pub mod rx;
pub mod text;
pub mod time;
pub mod target;
pub mod fields;
pub mod forecast;
pub mod resets;
pub mod display;
pub mod betteropc;
pub mod net;
pub mod update;
pub mod daemon;
pub mod inspector;
pub mod cdp;
pub mod cli;
