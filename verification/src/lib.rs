//! Core of a Redis Cluster client: slot topology, command routing, the
//! per-request retry state machine, and multi-node result aggregation.
//!
//! Everything here is decision logic over plain values; the only thing it
//! takes from outside is randomness. Sockets, timers and task scheduling
//! live with the caller, which feeds observations in and carries the
//! returned actions out.

pub mod aggregate;
pub mod command;
pub mod connection;
pub mod container;
pub mod dispatch;
pub mod error;
pub mod factory;
pub mod fanout;
pub mod lists;
pub mod pipeline;
mod random;
pub mod request;
pub mod retry;
pub mod routing;
pub mod slot;
pub mod slot_map;
pub mod supervisor;
pub mod table_rows;
pub mod text;
pub mod topology;
pub mod unpack;
pub mod value;
