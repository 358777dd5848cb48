//! A memo pad that keeps one plain-text memo file per directory.
pub mod app;
pub mod config;
pub mod constants;
pub mod document;
pub mod i18n;
pub mod layout;
pub mod screen;
pub mod storage;
pub mod styles;
pub mod text;
