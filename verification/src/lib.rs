//! Library core of vm-curator: VM groups, wizard state types and the
//! text-layout and menu logic that the TUI screens are built on.

pub mod chars;
pub mod config_summary;
pub mod create_wizard;
pub mod groups;
pub mod groups_screen;
pub mod info_panel;
pub mod keys;
pub mod main_menu;
pub mod management;
pub mod management_view;
pub mod metadata;
pub mod network_settings;
pub mod network_view;
pub mod seqs;
pub mod text;
pub mod vm;
pub mod vnet;
pub mod wizard_types;
