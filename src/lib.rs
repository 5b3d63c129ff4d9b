//! A terminal directory browser: navigation and incremental search over a
//! directory stack, and a two-pane renderer with display-width aware layout.

pub mod ops;
pub mod text;
pub mod width;
pub mod theme;
pub mod listing;
pub mod pattern;
pub mod input;
pub mod config;
pub mod browser;
pub mod canvas;
