//! Listings of directories.
pub mod api;
pub mod budget;
pub mod entries;
pub mod index;
pub mod items;
pub mod problems;
pub mod search;
pub mod sort;
pub mod walk;
