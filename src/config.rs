//! Settings read once at start-up and handed to the parts that need them.

use vstd::prelude::*;

verus! {

/// Where the service listens and whether it runs in development mode.
#[derive(Debug)]
pub struct AppConfig {
    pub port: i16,
    pub address: String,
    pub dev: bool,
}

/// What request handlers need of the configuration.
#[derive(Debug)]
pub struct AppState {
    pub address: String,
    pub dev_mode: bool,
}

/// Severity of a log line.
#[allow(non_camel_case_types)]
#[derive(Debug)]
pub enum LogLevel {
    INFO,
    WARN,
    ERROR,
    DEBUG,
}

impl LogLevel {
    /// The name written in log lines.
    pub fn label(&self) -> (r: &'static str)
        ensures
            r@ == match self {
                LogLevel::INFO => "INFO"@,
                LogLevel::WARN => "WARN"@,
                LogLevel::ERROR => "ERROR"@,
                LogLevel::DEBUG => "DEBUG"@,
            },
    {
        match self {
            LogLevel::INFO => "INFO",
            LogLevel::WARN => "WARN",
            LogLevel::ERROR => "ERROR",
            LogLevel::DEBUG => "DEBUG",
        }
    }
}

impl AppConfig {
    /// The configuration from the settings that were given: address
    /// `127.0.0.1:5775`, port 5775 and production mode where one is missing.
    pub fn from_values(address: Option<String>, port: Option<i16>, dev: Option<bool>) -> (r: AppConfig)
        ensures
            r.address@ == (match address { Some(a) => a@, None => "127.0.0.1:5775"@ }),
            r.port == (match port { Some(p) => p, None => 5775i16 }),
            r.dev == (match dev { Some(d) => d, None => false }),
    {
        AppConfig {
            port: match port {
                Some(p) => p,
                None => 5775,
            },
            address: match address {
                Some(a) => a,
                None => "127.0.0.1:5775".to_owned(),
            },
            dev: match dev {
                Some(d) => d,
                None => false,
            },
        }
    }

    /// The part of the configuration request handlers see.
    pub fn state(&self) -> (r: AppState)
        ensures
            r.address@ == self.address@,
            r.dev_mode == self.dev,
    {
        AppState { address: self.address.clone(), dev_mode: self.dev }
    }
}

} // verus!
