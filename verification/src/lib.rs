//! Device selection, colour strategies and saved lighting state for an
//! OpenRGB front end, with the decisions proved against their contracts.

pub mod text;
pub mod theme;
pub mod collections;
pub mod config;
pub mod openrgb;
pub mod apply;
pub mod listing;
pub mod summary;
pub mod flow;
pub mod devices;
pub mod restore;
pub mod sync;
pub mod hook;
pub mod picker;
pub mod ui;
