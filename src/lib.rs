//! A forward HTTP proxy: request-head reading, request classification and
//! rewriting, relay and tunnel state machines, and configuration parsing.
pub mod cli;
pub mod text;
pub mod config;
pub mod head;
pub mod classify;
pub mod relay;
pub mod session;
