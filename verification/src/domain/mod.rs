//! The catalog's records, forms and their rules.
pub mod brand;
pub mod category;
pub mod rules;
