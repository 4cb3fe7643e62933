//! Projectpad: the logic behind the notes, the note editor, the search and
//! the export of projects, written as verified functions over plain values.
pub mod chars;
pub mod choices;
pub mod config;
pub mod deletion;
pub mod dialogs;
pub mod export;
pub mod icons;
pub mod import;
pub mod import_export_dtos;
pub mod markdown;
pub mod models;
pub mod note_buffer;
pub mod note_edit;
pub mod notes;
pub mod project_items;
pub mod search;
pub mod search_view;
pub mod text;
pub mod yaml;
