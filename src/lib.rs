//! Controller core of an onion-style overlay messaging network: session
//! lifecycle, conversation-scoped multi-hop routes with single-use nonces,
//! and the authenticated service operations built on them.

pub mod table;
pub mod models;
mod ids;
pub mod text;
pub mod numbers;
pub mod session;
pub mod routing;
pub mod membership;
pub mod controller;
pub mod laws;
pub mod command;
pub mod keys;
pub mod settings;
pub mod service;
