//! Fleet coordination for network-attached receipt printers: a registry of
//! discovered devices, a per-device job queue, a small printing DSL, and the
//! renderer that expands DSL programs into primitive printer commands.
pub mod discovery_service;
pub mod mini_crossword;
pub mod mqtt;
pub mod mqtt_service;
pub mod printer;
pub mod profile;
pub mod program;
pub mod registry;
pub mod renderer;
pub mod text;
