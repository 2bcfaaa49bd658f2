//! OpenHarmony support for Tauri applications, each part stated and proved
//! with Verus: discovering, validating and copying plugins; editing the
//! project's configuration files; signing; the `ohos` commands (device
//! choice, icons, install and launch); the build-script decisions of
//! plugins; the runtime bridge to ArkTS; and the native submenu, tray and
//! window-effect models.
pub mod text;
pub mod jsonfmt;
pub mod path;
pub mod plugins;
pub mod har;
pub mod project_files;
pub mod menu;
pub mod tray;
pub mod signing;
pub mod run;
pub mod cli;
pub mod ohos;
pub mod plugin_build;
pub mod project;
pub mod vibrancy;
pub mod json;
