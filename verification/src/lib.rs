//! A small HTTP/1.1 server library: request parsing, headers and cookies,
//! bodies, routing, configuration validation, CGI output handling, uploads
//! and sessions.

pub mod text;
pub mod map;
pub mod sys;
pub mod bytes;
pub mod deps;
pub mod http;
pub mod config;
pub mod server;
pub mod sites;
