use vstd::prelude::*;

verus! {

/// The daemon's settings.
#[derive(Debug, Clone, Default)]
pub struct Settings {
    pub logging_level: String,
    pub crl_url: String,
    pub tls_definition: String,
    pub crl_update_interval: u64,
    pub downstream_addr: String,
    pub upstream_addr: String,
    pub peer_cert_as_username: bool,
    pub peer_cert_as_clientid: bool,
}

/// One layer of configuration; later layers override earlier ones.
#[derive(Debug, Clone)]
pub enum ConfigSource {
    /// The file at exactly this path.
    File { path: String, required: bool },
    /// A file of this base name, in any format known by its extension.
    NamedFile { name: String, required: bool },
    /// Environment variables that start with this prefix.
    Environment { prefix: String },
}

/// The layers of configuration for the file at `config_path`: that file,
/// which must exist; then an optional `local-config` file; then the
/// environment variables with prefix `TH`.
pub open spec fn config_sources(config_path: Seq<char>, s: Seq<ConfigSource>) -> bool {
    &&& s.len() == 3
    &&& s[0] matches ConfigSource::File { path, required } && path@ == config_path && required
    &&& s[1] matches ConfigSource::NamedFile { name, required } && name@ == "local-config"@
        && !required
    &&& s[2] matches ConfigSource::Environment { prefix } && prefix@ == "TH"@
}

/// How much the daemon logs.
#[derive(Debug, Clone, Copy, PartialEq, Eq)]
pub enum LogLevel {
    Trace,
    Debug,
    Info,
    Warn,
    Error,
}

impl Settings {
    /// Loads the settings: `load` reads and merges the given layers of
    /// configuration (see [`config_sources`]) into settings.
    pub fn new<E, F: FnOnce(Vec<ConfigSource>) -> Result<Settings, E>>(config_path: String, load: F) -> (r:
        Result<Settings, E>)
        requires
            forall|s: Vec<ConfigSource>| config_sources(config_path@, s@) ==> load.requires((s,)),
        ensures
            exists|s: Vec<ConfigSource>| config_sources(config_path@, s@) && load.ensures((s,), r),
    {
        let mut sources: Vec<ConfigSource> = Vec::new();
        sources.push(ConfigSource::File { path: config_path, required: true });
        sources.push(
            ConfigSource::NamedFile { name: String::from_str("local-config"), required: false },
        );
        sources.push(ConfigSource::Environment { prefix: String::from_str("TH") });
        load(sources)
    }

    /// The log level named by `logging_level`: `debug`, `warn`, `error` and
    /// `info` name their level, anything else means trace.
    pub fn log_level(&self) -> (r: LogLevel)
        ensures
            r == (if self.logging_level@ == "debug"@ {
                LogLevel::Debug
            } else if self.logging_level@ == "warn"@ {
                LogLevel::Warn
            } else if self.logging_level@ == "error"@ {
                LogLevel::Error
            } else if self.logging_level@ == "info"@ {
                LogLevel::Info
            } else {
                LogLevel::Trace
            }),
    {
        if self.logging_level == String::from_str("debug") {
            LogLevel::Debug
        } else if self.logging_level == String::from_str("warn") {
            LogLevel::Warn
        } else if self.logging_level == String::from_str("error") {
            LogLevel::Error
        } else if self.logging_level == String::from_str("info") {
            LogLevel::Info
        } else {
            LogLevel::Trace
        }
    }
}

} // verus!
