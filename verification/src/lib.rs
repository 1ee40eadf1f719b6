//! A live planning board for agentic development: specs own tickets, tickets
//! own tasks. This library holds the board's rules; the program around it
//! keeps the SQLite database, serves HTTP, and talks to agents.
pub mod agent;
pub mod api;
pub mod board;
pub mod config;
pub mod error;
pub mod event;
pub mod http;
pub mod json;
pub mod models;
pub mod text;
pub mod turn;
pub mod ui;
