//! Display helpers for the category pages; they are the brand pages' own.
pub use crate::domain::brand::dto::filters::{first_letter, initial_color};
