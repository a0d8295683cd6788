//! Configuration data and its validation rules.
//!
//! Reading and parsing the configuration file happen outside this core;
//! these are the settings themselves, their defaults, and the checks a
//! loaded configuration must pass.

use vstd::prelude::*;
use vstd::string::StrSliceExecFns;

use crate::util::str_eq;

verus! {

/// Top-level configuration.
#[derive(Debug)]
pub struct Config {
    pub serial: SerialConfig,
    pub network: NetworkConfig,
    pub webcam: WebcamConfig,
    pub gemini: GeminiConfig,
    pub terminal: TerminalConfig,
    pub logging: LogConfig,
    pub tunes: TunesConfig,
}

/// Terminal emulation settings.
#[derive(Debug, Clone)]
pub struct TerminalConfig {
    /// Terminal emulation mode: "vt100", "vt220" or "vt340"
    pub mode: String,
    /// Whether 132 column mode is on
    pub cols_132: bool,
}

impl Default for TerminalConfig {
    /// Plain VT100 with 80 columns.
    fn default() -> (r: Self)
        ensures
            r.mode@ == "vt100"@,
            !r.cols_132,
    {
        TerminalConfig { mode: "vt100".to_owned(), cols_132: false }
    }
}

/// Session logging settings.
#[derive(Debug, Clone)]
pub struct LogConfig {
    /// Directory to write log files to; logging is off without one
    pub directory: Option<String>,
}

impl Default for LogConfig {
    /// Logging off.
    fn default() -> (r: Self)
        ensures
            r.directory is None,
    {
        LogConfig { directory: None }
    }
}

/// Audio browser settings.
#[derive(Debug, Clone)]
pub struct TunesConfig {
    /// Directory of audio files to list; the tab is off without one
    pub directory: Option<String>,
}

impl Default for TunesConfig {
    /// Audio browser off.
    fn default() -> (r: Self)
        ensures
            r.directory is None,
    {
        TunesConfig { directory: None }
    }
}

/// Serial port settings.
#[derive(Debug, Clone)]
pub struct SerialConfig {
    /// Path to the serial port device
    pub port: String,
    /// Baud rate for serial communication
    pub baud_rate: u32,
}

/// Webcam settings.
#[derive(Debug, Clone)]
pub struct WebcamConfig {
    /// Path to the webcam device; the feature is off without one
    pub device: Option<String>,
    /// Target frames per second for video streaming
    pub fps: u32,
    /// Grayscale shades for sixel rendering
    pub sixel_shades: u8,
}

impl Default for WebcamConfig {
    /// Webcam off, modest defaults for rate and shading.
    fn default() -> (r: Self)
        ensures
            r.device is None,
            r.fps == 5,
            r.sixel_shades == 8,
    {
        WebcamConfig { device: None, fps: 5, sixel_shades: 8 }
    }
}

/// Assistant settings.
#[derive(Debug, Clone)]
pub struct GeminiConfig {
    /// API key; the assistant tab is off without one
    pub api_key: Option<String>,
    /// Model name
    pub model: String,
    /// System prompt, when one is configured
    pub system_prompt: Option<String>,
}

impl Default for GeminiConfig {
    /// Assistant off, pointed at the default model.
    fn default() -> (r: Self)
        ensures
            r.api_key is None,
            r.model@ == default_gemini_model_name(),
            r.system_prompt is None,
    {
        let m = default_gemini_model();
        GeminiConfig { api_key: None, model: m, system_prompt: None }
    }
}

/// Network settings.
#[derive(Debug)]
pub struct NetworkConfig {
    /// Display name for this node
    pub name: String,
    /// UDP port for peer-to-peer traffic
    pub port: u16,
    /// Local IP address to bind to, auto-detected when absent
    pub bind_ip: Option<String>,
    /// Whether to attempt router port forwarding
    pub upnp: bool,
    /// Peer addresses to connect to on startup, comma separated
    pub peers: String,
}

/// The name of the default assistant model.
pub open spec fn default_gemini_model_name() -> Seq<char> {
    "gemini-2.5-flash"@
}

/// The default assistant model.
pub fn default_gemini_model() -> (r: String)
    ensures
        r@ == default_gemini_model_name(),
{
    "gemini-2.5-flash".to_owned()
}

/// The default serial baud rate.
pub fn default_baud_rate() -> (r: u32)
    ensures
        r == 9600,
{
    9600
}

/// The default peer-to-peer data port.
pub fn default_port() -> (r: u16)
    ensures
        r == 7890,
{
    7890
}

/// The default for settings that are on unless switched off.
pub fn default_true() -> (r: bool)
    ensures
        r,
{
    true
}

/// The default video capture rate.
pub fn default_fps() -> (r: u32)
    ensures
        r == 5,
{
    5
}

/// The default sixel shade count.
pub fn default_sixel_shades() -> (r: u8)
    ensures
        r == 8,
{
    8
}

/// The configuration checks that fail a load.
#[derive(Debug, Clone)]
pub enum ConfigError {
    /// The terminal mode names no supported terminal
    InvalidMode(String),
    /// 132 column mode on a terminal that cannot do it
    InvalidColumnsConfig,
}

/// The boolean a configuration word denotes, if any: the usual spellings of
/// on and off.
pub open spec fn bool_word(s: Seq<char>) -> Option<bool> {
    if s == "true"@ || s == "1"@ || s == "yes"@ || s == "on"@ {
        Some(true)
    } else if s == "false"@ || s == "0"@ || s == "no"@ || s == "off"@ {
        Some(false)
    } else {
        None
    }
}

/// Parse one of the accepted boolean words, already lowercased.
pub fn parse_bool_str(s: &str) -> (r: Option<bool>)
    ensures
        r == bool_word(s@),
{
    if str_eq(s, "true") || str_eq(s, "1") || str_eq(s, "yes") || str_eq(s, "on") {
        Some(true)
    } else if str_eq(s, "false") || str_eq(s, "0") || str_eq(s, "no") || str_eq(s, "off") {
        Some(false)
    } else {
        None
    }
}

/// A terminal mode this program supports.
pub open spec fn valid_terminal_mode(mode: Seq<char>) -> bool {
    mode == "vt100"@ || mode == "vt220"@ || mode == "vt340"@
}

/// Validate and normalize a loaded configuration: the display name is cut to
/// 16 characters, the terminal mode must name a supported terminal, and 132
/// column mode needs a terminal above the VT100.
pub fn validate(config: Config) -> (r: Result<Config, ConfigError>)
    ensures
        match r {
            Ok(c) => {
                &&& valid_terminal_mode(c.terminal.mode@)
                &&& !(c.terminal.mode@ == "vt100"@ && c.terminal.cols_132)
                &&& c.network.name@ == (if config.network.name@.len() <= 16 {
                    config.network.name@
                } else {
                    config.network.name@.take(16)
                })
                &&& c.terminal.mode@ == config.terminal.mode@
                &&& c.terminal.cols_132 == config.terminal.cols_132
                &&& c.network.port == config.network.port
            },
            Err(e) => {
                &&& (e is InvalidMode <==> !valid_terminal_mode(config.terminal.mode@))
                &&& (e is InvalidColumnsConfig ==> config.terminal.mode@ == "vt100"@
                    && config.terminal.cols_132)
            },
        },
{
    let mut config = config;
    let name_chars = config.network.name.as_str().unicode_len();
    if name_chars > 16 {
        let cut = config.network.name.as_str().substring_char(0, 16).to_owned();
        config.network.name = cut;
    }
    let mode_ok = str_eq(config.terminal.mode.as_str(), "vt100") || str_eq(
        config.terminal.mode.as_str(),
        "vt220",
    ) || str_eq(config.terminal.mode.as_str(), "vt340");
    if !mode_ok {
        let m = config.terminal.mode.clone();
        return Err(ConfigError::InvalidMode(m));
    }
    if str_eq(config.terminal.mode.as_str(), "vt100") && config.terminal.cols_132 {
        return Err(ConfigError::InvalidColumnsConfig);
    }
    proof {
        if config.network.name@.len() > 16 {
            assert(config.network.name@.subrange(0, 16) =~= config.network.name@.take(16));
        }
    }
    Ok(config)
}

} // verus!
