//! Verified core of an extensible code editor: registries for commands,
//! keybindings, menus and other contributions, and the validation and
//! parsing rules around them.
pub mod text;
pub mod json;
pub mod store;
pub mod git;
pub mod language;
pub mod order;
pub mod paths;
pub mod menus;
pub mod features;
pub mod tasks;
pub mod filesystem;
pub mod edit_run;
pub mod textdocument;
pub mod test_runner;
pub mod themes;
pub mod debug;
pub mod commands;
pub mod keybindings;
pub mod render;
pub mod configuration;
pub mod settings;
pub mod bars;
pub mod contributions;
pub mod marketplace;
pub mod workspace;
pub mod debug_config;
pub mod files;
pub mod search;
pub mod editor_core;
pub mod app_config;
pub mod dap;
pub mod provider_calls;
