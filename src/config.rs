use vstd::prelude::*;

verus! {

broadcast use vstd::string::to_string_from_display_ensures_for_str;

/// Default port constant.
pub const DEFAULT_PORT: u16 = 8080;

/// Application name.
pub type AppName = String;

/// Holds application configuration; supports multiple environments.
pub struct AppConfig {
    pub host: String,
    pub port: u16,
    pub log_level: String,
}

impl AppConfig {
    /// Creates a configuration for `host` with the default port and log level.
    pub fn new(host: String) -> (r: AppConfig)
        ensures
            r.host == host,
            r.port == DEFAULT_PORT,
            r.log_level@ == "info"@,
    {
        AppConfig { host, port: DEFAULT_PORT, log_level: "info".to_string() }
    }

    /// Checks that a host is set and the port is positive, in that order.
    pub fn validate(&self) -> (r: Result<(), String>)
        ensures
            r is Ok <==> self.host@.len() > 0 && self.port != 0,
            r matches Err(e) ==> (self.host@.len() == 0 ==> e@ == "host is required"@),
            r matches Err(e) ==> (self.host@.len() > 0 ==> e@ == "port must be positive"@),
    {
        if self.host.as_str().is_empty() {
            return Err("host is required".to_string());
        }
        if self.port == 0 {
            return Err("port must be positive".to_string());
        }
        Ok(())
    }
}

/// Formats output.
pub trait AppFormatter {
    fn format(&self, data: &str) -> String;

    fn reset(&mut self);
}

/// Application status.
#[derive(Debug, Clone)]
pub enum AppStatus {
    Active,
    Inactive,
    Maintenance,
}

} // verus!
