//! A small personal to-do store: timestamped records, a day-window view,
//! completion by position in that view, and line framing for the store file.
pub mod stamp;
pub mod item;
pub mod db;
pub mod lines;
pub mod render;
