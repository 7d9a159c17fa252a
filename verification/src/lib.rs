//! Verified core of a Syncthing tray for KDE Plasma: the state the tray
//! renders, the rules that turn Syncthing's and systemd's answers into that
//! state, and the text the tray hands to the desktop.

pub mod text;
pub mod order;
pub mod model;
pub mod client;
pub mod config;
mod places;
pub mod icons;
pub mod placeholder;
pub mod tray;
pub mod autostart;
pub mod dialog;
pub mod unit;
pub mod instance;
pub mod worker;
