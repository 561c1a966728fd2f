//! Opening one transport connection for a logical endpoint.
//!
//! A resolver hands over zero, one or several candidate addresses for an
//! endpoint. This crate holds the failover rules that turn them into one
//! connection: the candidates are tried strictly in order, the first one that
//! connects wins, and when every candidate has failed the error of the last
//! attempt is reported.
//!
//! The rules are written as a state machine that does no I/O. Whoever drives
//! it performs the connect operations and reports how each one went; the
//! machine answers with what to do next.

pub mod connect;
pub mod connector;
pub mod error;
pub mod failover;
pub mod model;
