//! Verified core of the disco audio-visualisation server: the LED serial
//! protocol, retry scheduling, session bookkeeping and beat peak detection.

pub mod audio;
pub mod buffering;
pub mod cli;
pub mod codec;
pub mod controller;
pub mod decimal;
pub mod descriptors;
pub mod errors;
pub mod handlers;
pub mod led;
pub mod peaks;
pub mod registry;
pub mod retry;
pub mod server;
pub mod session;
pub mod session_store;
pub mod sorting;
pub mod viewer;
