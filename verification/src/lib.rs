//! The logic of WinSoftVol, a tray program that carries the Windows volume
//! slider over to the per-application session volumes: its configuration,
//! the decisions of its main loop, its notifications and its update check.

use vstd::prelude::*;

pub mod about;
pub mod autostart;
pub mod config;
pub mod control;
pub mod notification;
pub mod softvol;
pub mod text;
pub mod tray;
pub mod updater;
pub mod volcap;

verus! {

} // verus!
