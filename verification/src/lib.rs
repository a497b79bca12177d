use vstd::prelude::*;

pub mod audio;
pub mod controls;
pub mod desktop;
pub mod editor;
pub mod i18n;
pub mod icons;
pub mod island;
pub mod launcher;
pub mod models;
pub mod notch;
pub mod order;
pub mod panel;
pub mod paths;
pub mod storage;
pub mod switcher;
pub mod sysmon;
pub mod taskbar;
pub mod text;
pub mod tray;
pub mod wifi;

verus! {
} // verus!
