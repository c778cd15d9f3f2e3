//! Per-output wallpaper rendering core: configuration, transitions, the
//! output surface state machine and the registry of surfaces.

pub mod config;
pub mod image;
pub mod transition;
pub mod surface;
pub mod registry;
pub mod hyprland;
pub mod ipc;
