pub mod text;
pub mod commands;
pub mod address;
pub mod sheets;
pub mod app;
pub mod json;
pub mod auth;
pub mod config;
pub mod menu;
pub mod table;
pub mod prompt;
