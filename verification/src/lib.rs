//! The logic of the BlueHash agent for Windows: the daemon that holds a device's
//! hardware identity key (HIK) and its user's personal network key (PNK), and
//! the tray that shows it. The library decides; files, pipes, HTTP and the
//! system's own services are the caller's.

pub mod broker;
pub mod crypto;
pub mod daemon;
pub mod distribution;
pub mod encoding;
pub mod identifier;
pub mod ipc;
pub mod keychain;
pub mod login;
pub mod manifest;
pub mod outside;
pub mod pairing;
pub mod paths;
pub mod rotation;
pub mod service;
pub mod state;
pub mod system;
pub mod text;
pub mod tray;
