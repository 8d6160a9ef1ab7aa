//! Configuration values: what `config.toml` can hold, the defaults for what it leaves
//! out, and the errors of loading it.

use vstd::prelude::*;

verus! {

/// Which routing strategy the proxy uses to pick a backend for each incoming request.
#[derive(Debug, Clone, Copy, PartialEq, Eq, Structural)]
pub enum Algorithm {
    RoundRobin,
    LeastConnections,
}

impl Default for Algorithm {
    /// Round-robin, unless the configuration says otherwise.
    fn default() -> (algorithm: Self)
        ensures
            algorithm == Algorithm::RoundRobin,
    {
        Algorithm::RoundRobin
    }
}

impl Algorithm {
    /// The name under which the status page reports the algorithm.
    pub open spec fn label_spec(self) -> Seq<char> {
        match self {
            Algorithm::RoundRobin => "RoundRobin"@,
            Algorithm::LeastConnections => "LeastConnections"@,
        }
    }

    /// The name under which the status page reports the algorithm.
    pub fn label(self) -> (label: String)
        ensures
            label@ == self.label_spec(),
            self == Algorithm::RoundRobin ==> label@ == "RoundRobin"@,
            self == Algorithm::LeastConnections ==> label@ == "LeastConnections"@,
    {
        match self {
            Algorithm::RoundRobin => "RoundRobin".to_owned(),
            Algorithm::LeastConnections => "LeastConnections".to_owned(),
        }
    }
}

/// One `[[backends]]` entry.
#[derive(Debug)]
pub struct BackendConfig {
    /// Base URL of the backend, e.g. "http://127.0.0.1:9001". No trailing slash.
    pub addr: String,
}

impl View for BackendConfig {
    type V = Seq<char>;

    open spec fn view(&self) -> Seq<char> {
        self.addr@
    }
}

impl Clone for BackendConfig {
    fn clone(&self) -> (copy: Self)
        ensures
            copy == *self,
    {
        BackendConfig { addr: self.addr.clone() }
    }
}

/// Seconds between health-check rounds, where the file does not say.
pub fn default_health_check_interval() -> (secs: u64)
    ensures
        secs == 5,
{
    5
}

/// Seconds that a single health check may take, where the file does not say.
pub fn default_health_check_timeout() -> (secs: u64)
    ensures
        secs == 2,
{
    2
}

/// The path that health checks ask for, where the file does not say.
pub fn default_health_check_path() -> (path: String)
    ensures
        path@ == "/health"@,
{
    "/health".to_owned()
}

/// The address that the proxy listens on, where the file does not say.
pub fn default_listen_addr() -> (addr: String)
    ensures
        addr@ == "127.0.0.1:8080"@,
{
    "127.0.0.1:8080".to_owned()
}

/// What a configuration file spells out, key by key: `None` where a key is missing.
#[derive(Debug)]
pub struct ConfigFile {
    pub listen_addr: Option<String>,
    pub algorithm: Option<Algorithm>,
    pub health_check_interval_secs: Option<u64>,
    pub health_check_timeout_secs: Option<u64>,
    pub health_check_path: Option<String>,
    pub backends: Option<Vec<BackendConfig>>,
}

/// A complete configuration, with every default filled in.
#[derive(Debug)]
pub struct Config {
    pub listen_addr: String,
    pub algorithm: Algorithm,
    pub health_check_interval_secs: u64,
    pub health_check_timeout_secs: u64,
    pub health_check_path: String,
    pub backends: Vec<BackendConfig>,
}

/// The mathematical value of a `Config`: strings as character sequences, and the
/// backends as the sequence of their addresses.
#[verifier::ext_equal]
pub struct ConfigView {
    pub listen_addr: Seq<char>,
    pub algorithm: Algorithm,
    pub health_check_interval_secs: u64,
    pub health_check_timeout_secs: u64,
    pub health_check_path: Seq<char>,
    pub backends: Seq<Seq<char>>,
}

/// The addresses of a list of backend entries, in order.
pub open spec fn addresses(entries: Seq<BackendConfig>) -> Seq<Seq<char>> {
    Seq::new(entries.len(), |i: int| entries[i]@)
}

impl View for Config {
    type V = ConfigView;

    open spec fn view(&self) -> ConfigView {
        ConfigView {
            listen_addr: self.listen_addr@,
            algorithm: self.algorithm,
            health_check_interval_secs: self.health_check_interval_secs,
            health_check_timeout_secs: self.health_check_timeout_secs,
            health_check_path: self.health_check_path@,
            backends: addresses(self.backends@),
        }
    }
}

impl Clone for Config {
    fn clone(&self) -> (copy: Self)
        ensures
            copy@ == self@,
            copy.listen_addr@ == self.listen_addr@,
            copy.algorithm == self.algorithm,
            copy.health_check_interval_secs == self.health_check_interval_secs,
            copy.health_check_timeout_secs == self.health_check_timeout_secs,
            copy.health_check_path@ == self.health_check_path@,
            copy.backends@.len() == self.backends@.len(),
            forall|i: int|
                0 <= i < copy.backends@.len() ==> (#[trigger] copy.backends@[i]).addr@
                    == self.backends@[i].addr@,
    {
        let copy = Config {
            listen_addr: self.listen_addr.clone(),
            algorithm: self.algorithm,
            health_check_interval_secs: self.health_check_interval_secs,
            health_check_timeout_secs: self.health_check_timeout_secs,
            health_check_path: self.health_check_path.clone(),
            backends: self.backends.clone(),
        };
        assert(copy@.backends =~= self@.backends);
        copy
    }
}

impl ConfigFile {
    /// The configuration that the file stands for: what it spells out, and the default of
    /// each key that it leaves out.
    pub open spec fn completed(self) -> ConfigView {
        ConfigView {
            listen_addr: match self.listen_addr {
                Some(addr) => addr@,
                None => "127.0.0.1:8080"@,
            },
            algorithm: match self.algorithm {
                Some(algorithm) => algorithm,
                None => Algorithm::RoundRobin,
            },
            health_check_interval_secs: match self.health_check_interval_secs {
                Some(secs) => secs,
                None => 5,
            },
            health_check_timeout_secs: match self.health_check_timeout_secs {
                Some(secs) => secs,
                None => 2,
            },
            health_check_path: match self.health_check_path {
                Some(path) => path@,
                None => "/health"@,
            },
            backends: match self.backends {
                Some(entries) => addresses(entries@),
                None => Seq::empty(),
            },
        }
    }

    /// Fills in the defaults.
    pub fn complete(self) -> (config: Config)
        ensures
            config@ == self.completed(),
            config.listen_addr@ == (match self.listen_addr {
                Some(addr) => addr@,
                None => "127.0.0.1:8080"@,
            }),
            config.algorithm == (match self.algorithm {
                Some(algorithm) => algorithm,
                None => Algorithm::RoundRobin,
            }),
            config.health_check_interval_secs == (match self.health_check_interval_secs {
                Some(secs) => secs,
                None => 5,
            }),
            config.health_check_timeout_secs == (match self.health_check_timeout_secs {
                Some(secs) => secs,
                None => 2,
            }),
            config.health_check_path@ == (match self.health_check_path {
                Some(path) => path@,
                None => "/health"@,
            }),
            self.backends matches Some(entries) ==> config.backends@ == entries@,
            self.backends is None ==> config.backends@.len() == 0,
    {
        Config {
            listen_addr: match self.listen_addr {
                Some(addr) => addr,
                None => default_listen_addr(),
            },
            algorithm: match self.algorithm {
                Some(algorithm) => algorithm,
                None => Algorithm::default(),
            },
            health_check_interval_secs: match self.health_check_interval_secs {
                Some(secs) => secs,
                None => default_health_check_interval(),
            },
            health_check_timeout_secs: match self.health_check_timeout_secs {
                Some(secs) => secs,
                None => default_health_check_timeout(),
            },
            health_check_path: match self.health_check_path {
                Some(path) => path,
                None => default_health_check_path(),
            },
            backends: match self.backends {
                Some(entries) => entries,
                None => Vec::new(),
            },
        }
    }
}

/// Why a configuration file could not be loaded.
#[derive(Debug)]
pub enum ConfigError {
    /// The file could not be read.
    Read { path: String, source: String },
    /// The file was read, but it is not a configuration.
    Parse { path: String, source: String },
}

impl ConfigError {
    /// The line that is shown to the operator.
    pub open spec fn message_spec(self) -> Seq<char> {
        match self {
            ConfigError::Read { path, source } => "failed to read config file "@ + path@ + ": "@
                + source@,
            ConfigError::Parse { path, source } => "failed to parse config file "@ + path@
                + ": "@ + source@,
        }
    }

    /// The line that is shown to the operator.
    pub fn message(&self) -> (message: String)
        ensures
            message@ == self.message_spec(),
            *self matches ConfigError::Read { path, source } ==> message@
                == "failed to read config file "@ + path@ + ": "@ + source@,
            *self matches ConfigError::Parse { path, source } ==> message@
                == "failed to parse config file "@ + path@ + ": "@ + source@,
    {
        match self {
            ConfigError::Read { path, source } => "failed to read config file ".to_owned().concat(
                path.as_str(),
            ).concat(": ").concat(source.as_str()),
            ConfigError::Parse { path, source } => "failed to parse config file ".to_owned().concat(
                path.as_str(),
            ).concat(": ").concat(source.as_str()),
        }
    }
}

/// What came of reading a configuration file and parsing its text.
#[derive(Debug)]
pub enum FileOutcome {
    /// Reading failed, for the reason given.
    Unreadable(String),
    /// The text is not a configuration, for the reason given.
    Malformed(String),
    /// The keys that the text holds.
    Parsed(ConfigFile),
}

impl Config {
    /// The configuration at `path`, given what came of reading and parsing that file: with
    /// the defaults filled in where it parsed, and otherwise an error that names the file
    /// and the reason.
    pub fn load(path: &str, outcome: FileOutcome) -> (loaded: Result<Config, ConfigError>)
        ensures
            match outcome {
                FileOutcome::Parsed(file) => loaded matches Ok(config) && config@
                    == file.completed(),
                FileOutcome::Unreadable(reason) => loaded matches Err(
                    ConfigError::Read { path: at, source },
                ) && at@ == path@ && source@ == reason@,
                FileOutcome::Malformed(reason) => loaded matches Err(
                    ConfigError::Parse { path: at, source },
                ) && at@ == path@ && source@ == reason@,
            },
    {
        match outcome {
            FileOutcome::Parsed(file) => Ok(file.complete()),
            FileOutcome::Unreadable(reason) => Err(
                ConfigError::Read { path: path.to_owned(), source: reason },
            ),
            FileOutcome::Malformed(reason) => Err(
                ConfigError::Parse { path: path.to_owned(), source: reason },
            ),
        }
    }
}

} // verus!
