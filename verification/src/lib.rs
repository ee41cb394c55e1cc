//! The logic of a terminal panel for local development: listening ports, managed services,
//! other processes and containers, and what is done with them. Everything here computes; what
//! touches the system is asked for by value and its outcome is handed back.
pub mod actions;
pub mod adopt;
pub mod app;
pub mod confirm;
pub mod docker;
pub mod env;
pub mod health;
pub mod keys;
pub mod laws;
pub mod laws_actions;
pub mod laws_calls;
pub mod laws_reading;
pub mod laws_rows;
pub mod laws_services;
pub mod laws_text;
pub mod laws_view;
pub mod manager;
pub mod platform;
pub mod ports;
pub mod quick;
pub mod rows;
pub mod services;
pub mod split;
pub mod system;
pub mod table;
pub mod text;
pub mod ui;
pub mod watch;
