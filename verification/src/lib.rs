//! The decisions of a daemon that watches the logs of gVisor sandboxes and contains
//! the containers that show signs of compromise.
//!
//! Every module decides over plain values; reading, sending and running programs is
//! left to the daemon around the library.
pub mod config;
pub mod connections;
pub mod containers;
pub mod dispatch;
pub mod encoding;
pub mod events;
pub mod exchange;
pub mod firewall;
pub mod framing;
pub mod http;
pub mod ingestion;
pub mod laws;
pub mod lifecycle;
pub mod limiters;
pub mod logger;
pub mod manifest;
pub mod network;
pub mod patterns;
pub mod pipeline;
pub mod rules;
pub mod seccomp;
pub mod syscalls;
pub mod text;
pub mod tracking;
pub mod worker;
