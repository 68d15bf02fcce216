//! Live aggregation of wireless survey output.
//!
//! A session runs a scanner, reads what it prints line by line and keeps a
//! current picture of the access points and clients in range:
//!
//! - [`text`] and [`number`] split a line into fields and read numbers;
//! - [`airodump`] turns a line into an access point, a client or nothing;
//! - [`topology`] keeps one record per hardware address and links clients
//!   to their access points;
//! - [`session`] is the ingestion loop as a state machine, with its
//!   deadline and its periodic snapshots;
//! - [`supervisor`] and [`events`] give the command lines to run and the
//!   entries to log;
//! - [`report`] lays a snapshot out as rows for display;
//! - [`mqtt`], [`dissect`] and [`analysis`] summarise captured MQTT
//!   packets.
//!
//! Waiting, processes, files and the terminal are the caller's business.

pub mod airodump;
pub mod analysis;
mod clock;
pub mod config;
pub mod dissect;
pub mod events;
pub mod models;
pub mod mqtt;
pub mod number;
pub mod report;
pub mod session;
pub mod supervisor;
pub mod text;
pub mod topology;
