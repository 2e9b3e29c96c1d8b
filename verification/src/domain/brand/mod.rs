//! Brands.
pub mod dto;
