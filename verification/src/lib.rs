//! Session and authorization core of a planner service: the delegated-login
//! handshake, the session store and the permission gate, each with a proved
//! contract.

pub mod api;
pub mod database;
pub mod discord;
pub mod error;
pub mod response;
pub mod text;
pub mod token;
pub mod types;
