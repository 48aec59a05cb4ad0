//! Core rules of a small to-do service: accounts, login tokens, to-do items and
//! timed reminders. Transport, storage and clocks are supplied by the caller.

pub mod config;
pub mod handler;
pub mod json;
pub mod methods;
pub mod models;
pub mod text;
pub mod token;
