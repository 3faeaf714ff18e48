//! The server's command-line configuration.
use vstd::prelude::*;

verus! {

/// The configuration a session runs with: the start options and the
/// program-wide defaults.
#[derive(Debug, Clone)]
pub struct Config {
    pub run: StartOpts,
    pub default: Opts,
}

/// Options of the `start` command.
#[derive(Debug, Clone)]
pub struct StartOpts {
    pub port: u16,
    pub play_file: Option<String>,
    pub max_sessions: Option<usize>,
    pub max_viewers: Option<usize>,
    pub max_controllers: Option<usize>,
    pub max_keepalive_sec: u64,
    pub no_sound: bool,
    pub led_serial_device: Option<String>,
    pub leds_per_strip: Option<u32>,
    pub num_led_strips: Option<u32>,
}

/// Options of the `query` command.
#[derive(Debug, Clone)]
pub struct QueryOpts {
    pub device: Option<String>,
}

/// The commands of the program.
#[derive(Debug, Clone)]
pub enum Commands {
    Start(StartOpts),
    Query(QueryOpts),
}

/// Program-wide options.
#[derive(Debug, Clone)]
pub struct Opts {
    pub input_device: Option<String>,
    pub output_device: Option<String>,
    pub latency: u32,
    pub use_portaudio: bool,
    pub commands: Option<Commands>,
}

} // verus!
