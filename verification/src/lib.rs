pub mod bank;
pub mod checked_counts;
pub mod count_laws;
pub mod editor_steps;
pub mod error;
pub mod hero;
pub mod hero_edit;
pub mod hero_grail;
pub mod hero_laws;
pub mod i18n;
pub mod i18n_laws;
pub mod inventory;
pub mod inventory_doc;
pub mod inventory_edit;
pub mod inventory_laws;
pub mod inventory_replace;
pub mod item_counts;
pub mod item_shortcuts;
pub mod json;
pub mod laws;
pub mod save_manager;
pub mod save_model;
pub mod save_read;
pub mod settings;
pub mod search;
pub mod text;
pub mod theme;
pub mod upgrade_dictionary;
pub mod upgrade_edit;
pub mod upgrade_laws;
