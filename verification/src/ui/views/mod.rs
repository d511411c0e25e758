//! The lines of the views, and their rows.

pub mod favorites;
pub mod list;
pub mod list_laws;
pub mod pickers;
pub mod queue;
pub mod search;
pub mod settings;
