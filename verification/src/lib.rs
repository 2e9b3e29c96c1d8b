//! Form validation, display helpers and page decisions for a small catalog
//! of brands and categories.
pub mod common;
pub mod number;
pub mod domain;
pub mod text;
pub mod web;
