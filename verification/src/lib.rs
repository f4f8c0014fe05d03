//! Decisions behind the app store's views: what each page shows, how cards
//! are laid out in a grid, which buttons an application offers, and how
//! counts, licenses and links are presented.

pub mod downloads;
pub mod release;
pub mod model;
pub mod store;
pub mod addons;
pub mod grid;
pub mod buttons;
pub mod license;
pub mod details;
pub mod pages;
pub mod order;
