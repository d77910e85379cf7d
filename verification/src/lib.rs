//! Microbat: a small relational database server with a binary wire protocol,
//! an SQL front end and an in-memory execution engine.
//!
//! The crate is organised bottom up: byte-order helpers, the value model,
//! the wire codec, the lexer and parser, the expression evaluator, the
//! catalog, and finally the per-connection request handling.

pub mod client;
pub mod client_messages;
pub mod connect;
pub mod data;
pub mod db;
pub mod expression;
pub mod lexer;
pub mod manager;
pub mod messages;
pub mod parser;
pub mod protocol_error;
pub mod render_result;
pub mod server_messages;
pub mod static_values;
pub mod table_model;
pub mod text;
pub mod tokens;
pub mod wire;
