//! The windows: what they hold, how they answer events, and what they show.
pub mod deployments;
pub mod dialogs;
pub mod family_switches;
pub mod host_actions;
pub mod image_info;
pub mod image_source;
pub mod rebase_dialog;
pub mod rebase_page;
pub mod segmented_progress;
pub mod status_pages;
pub mod status_view;
pub mod update_check_dialog;
pub mod update_list;
