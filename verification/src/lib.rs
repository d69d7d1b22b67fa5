//! Decision logic of a system updater for image-based desktops.
pub mod action_journal;
pub mod app;
pub mod args;
pub mod calendar;
pub mod changelog_widget;
pub mod cli;
pub mod dbus_progress;
pub mod families;
pub mod ffi;
pub mod gpu;
pub mod orchestrator;
pub mod privileged;
pub mod rebase_widget;
pub mod registry_client;
pub mod sbom_diff;
pub mod service;
pub mod settings;
pub mod text;
pub mod ui;
pub mod update_worker;
