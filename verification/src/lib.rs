//! Verified core of the IdleScreen screensaver stack.

use vstd::prelude::*;

pub mod applet;
pub mod atlas;
pub mod auth;
pub mod caption;
pub mod catalog;
pub mod cli;
pub mod discovery;
pub mod handshake;
pub mod launcher;
pub mod interactive;
pub mod laws;
pub mod monitor;
pub mod overlay;
pub mod palette;
pub mod path_safety;
pub mod pixels;
pub mod rng;
pub mod saver;
pub mod resolve;
pub mod router;
pub mod sysinfo;
pub mod text;
pub mod theme;
pub mod settings;
pub mod session;
pub mod shm;
pub mod status;
pub mod stretch;

verus! {


} // verus!
