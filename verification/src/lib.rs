//! The verified core of a window switcher that groups windows by application.
use vstd::prelude::*;

pub mod text;
pub mod path_name;
pub mod handle;
pub mod window_manager;
pub mod grouping;
pub mod settings;
pub mod placement;
pub mod thumbnail;
pub mod session;
pub mod hotkey;
pub mod tray;
pub mod update;
pub mod cache;
pub mod window_ops;
