//! Verified core of a clipboard history manager.
pub mod text;
pub mod types;
pub mod history;
pub mod commands;
pub mod search;
pub mod selection;
pub mod lifecycle;
pub mod view_model;
pub mod settings;
pub mod settings_search;
pub mod onboarding;
pub mod time_format;
pub mod diagnostics;
pub mod platform;
pub mod persistence;
pub mod linux_shell;
pub mod linux_portal;
pub mod linux_history;
pub mod linux_files;
pub mod linux_dialogs;
pub mod linux_cli;
pub mod linux_popup;
