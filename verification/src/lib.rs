//! Verified core of a small window recorder: hotkey encoding, key names,
//! file naming, capture geometry, clip compression planning and the state of
//! the floating toolbar.

pub mod audio;
pub mod capture;
pub mod config;
pub mod hotkey;
pub mod i18n;
pub mod icon;
pub mod recorder;
pub mod settings;
pub mod text;
pub mod toolbar;
pub mod trim;
pub mod videos;
pub mod window_picker;
