//! Verified core of Blackout: the cinema-mode state machine, hotkey strings,
//! UI texts, autostart and config-path rules.

pub mod about;
pub mod text;
pub mod hotkey;
pub mod combo_laws;
pub mod code_laws;
pub mod config;
pub mod app;
pub mod mode_laws;
pub mod os;
pub mod i18n;
pub mod catalog_laws;
pub mod autostart;
pub mod autostart_laws;
pub mod purge;
pub mod ui;
pub mod menu;
pub mod winmsg;
pub mod bind;
pub mod screen;
pub mod live_bind;
pub mod icon;
pub mod icon_file;
