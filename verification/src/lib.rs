//! Verified core of Audio Hub: the naming, matching, configuration-text and
//! state-keeping logic behind the Windows audio control centre.
pub mod device;
pub mod text;
pub mod unfocused_mute;
pub mod simple_route;
pub mod equalizer_apo;
pub mod str_map;
pub mod eq_presets;
pub mod settings;
pub mod voicemeeter;
pub mod profile;
pub mod capture;
pub mod autostart;
pub mod volume_follow;
pub mod tray;
pub mod console;
pub mod policy;
pub mod notifications;
pub mod mute_round;
