//! Terminal front end for searching, downloading and playing torrents:
//! the decisions of its screens, its text editing and its half-block video renderer.

pub mod vo;
pub mod digits;
pub mod ansi;
pub mod mode;
pub mod event;
pub mod text;
pub mod action;
pub mod feed;
pub mod input;
pub mod table;
pub mod popup;
pub mod components;
pub mod app;
