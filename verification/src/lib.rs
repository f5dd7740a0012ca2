//! Fleet monitoring for small servers.
//!
//! Agents sample their host and report to a central server. The server keeps one row per
//! machine, carries network traffic totals across reboots, and raises alerts through Telegram
//! or a webhook. This crate holds the rules of both sides; sockets, files, the clock and the
//! database stay with the programs that use it.
pub mod text;
pub mod quantity;
pub mod clock;
pub mod http;
pub mod db;
pub mod notify;
pub mod delivery;
pub mod offline;
pub mod agent;
