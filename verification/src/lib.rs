//! The verified core of a Wayland autoclicker: the clicking engine and its
//! loop, key names and hotkey recognition, the local command channel, the
//! saved settings, the command line, and the decisions of the window.
//! Device access, sockets, files, threads and the window itself are left
//! to the program that uses this library.

use vstd::prelude::*;

pub mod cli;
pub mod clicker;
pub mod config;
pub mod hotkey;
pub mod ipc;
pub mod keymap;
pub mod session;
pub mod text;
