//! Categories, flat and as a tree.
pub mod dto;
pub mod dto2;
pub mod lookup;
