//! Process configuration: each setting read from an optional configuration
//! file, with a default for every key the file does not hold.
use config::Config as SettingsSource;
use config::ConfigError;
use vstd::prelude::*;

verus! {

/// config's loaded settings, carried through without looking inside.
#[verifier::external_type_specification]
#[verifier::external_body]
pub struct ExSettings(SettingsSource);

/// config's error, handed back to the caller as it came.
#[verifier::external_type_specification]
#[verifier::external_body]
pub struct ExConfigError(ConfigError);

/// What the configuration source holds under one key.
pub enum Setting<T> {
    /// The key is absent.
    Missing,
    /// The key holds a value of the expected type.
    Found(T),
    /// The key holds something that cannot be read as the expected type.
    Invalid(ConfigError),
}

/// The process configuration.
pub struct Config {
    pub log_level: String,
    pub log_file: String,
    pub server_address: String,
    pub server_port: u16,
    pub htpasswd_path: String,
    pub services_path: String,
}

pub open spec fn default_server_address_text() -> Seq<char> {
    "0.0.0.0"@
}

pub open spec fn default_htpasswd_path_text() -> Seq<char> {
    "/etc/monitor_server/htpasswd"@
}

pub open spec fn default_services_path_text() -> Seq<char> {
    "/etc/monitor_server/services.toml"@
}

pub open spec fn default_log_level_text() -> Seq<char> {
    "info"@
}

pub open spec fn default_log_file_text() -> Seq<char> {
    "server.log"@
}

/// The port served when the configuration names none.
pub const DEFAULT_SERVER_PORT: u16 = 8550;

fn default_server_address() -> (r: String)
    ensures
        r@ == default_server_address_text(),
{
    "0.0.0.0".to_owned()
}

fn default_server_port() -> (r: u16)
    ensures
        r == DEFAULT_SERVER_PORT,
{
    DEFAULT_SERVER_PORT
}

fn default_htpasswd_path() -> (r: String)
    ensures
        r@ == default_htpasswd_path_text(),
{
    "/etc/monitor_server/htpasswd".to_owned()
}

fn default_services_path() -> (r: String)
    ensures
        r@ == default_services_path_text(),
{
    "/etc/monitor_server/services.toml".to_owned()
}

fn default_log_level() -> (r: String)
    ensures
        r@ == default_log_level_text(),
{
    "info".to_owned()
}

fn default_log_file() -> (r: String)
    ensures
        r@ == default_log_file_text(),
{
    "server.log".to_owned()
}

/// A text setting's value, or `default` where the key is missing.
pub open spec fn text_or_default(s: Setting<String>, default: Seq<char>) -> Seq<char> {
    match s {
        Setting::Found(v) => v@,
        _ => default,
    }
}

/// A number setting's value, or `default` where the key is missing.
pub open spec fn number_or_default(s: Setting<u16>, default: u16) -> u16 {
    match s {
        Setting::Found(v) => v,
        _ => default,
    }
}

fn text_value(s: Setting<String>, default: String) -> (r: Result<String, ConfigError>)
    ensures
        match r {
            Ok(v) => !(s is Invalid) && v@ == text_or_default(s, default@),
            Err(_) => s is Invalid,
        },
{
    match s {
        Setting::Missing => Ok(default),
        Setting::Found(v) => Ok(v),
        Setting::Invalid(e) => Err(e),
    }
}

/// Relies on config's `Config::builder`, `File::with_name(..).required(false)`
/// and `ConfigBuilder::build`: the settings of the named file, when there is
/// one, in the format that its extension names. What comes back depends on
/// what is on disk.
#[verifier::external_body]
fn load_settings(file: &str) -> (r: Result<SettingsSource, ConfigError>) {
    SettingsSource::builder().add_source(config::File::with_name(file).required(false)).build()
}

/// Relies on config's `Config::get_string`: the text under `key`, its
/// `NotFound` error standing for a missing key.
#[verifier::external_body]
fn text_setting(settings: &SettingsSource, key: &str) -> (r: Setting<String>) {
    match settings.get_string(key) {
        Ok(v) => Setting::Found(v),
        Err(ConfigError::NotFound(_)) => Setting::Missing,
        Err(e) => Setting::Invalid(e),
    }
}

/// Relies on config's `Config::get::<u16>`: the port number under `key`,
/// its `NotFound` error standing for a missing key.
#[verifier::external_body]
fn port_setting(settings: &SettingsSource, key: &str) -> (r: Setting<u16>) {
    match settings.get::<u16>(key) {
        Ok(v) => Setting::Found(v),
        Err(ConfigError::NotFound(_)) => Setting::Missing,
        Err(e) => Setting::Invalid(e),
    }
}

impl Config {
    /// The configuration from the settings found: each one that is present
    /// is taken, each one that is missing takes its default, and any that is
    /// present but unreadable makes the whole configuration fail.
    pub fn from_settings(
        log_level: Setting<String>,
        log_file: Setting<String>,
        server_address: Setting<String>,
        server_port: Setting<u16>,
        htpasswd_path: Setting<String>,
        services_path: Setting<String>,
    ) -> (r: Result<Config, ConfigError>)
        ensures
            r is Err <==> (log_level is Invalid || log_file is Invalid || server_address is Invalid
                || server_port is Invalid || htpasswd_path is Invalid || services_path is Invalid),
            r matches Ok(c) ==> {
                &&& c.log_level@ == text_or_default(log_level, default_log_level_text())
                &&& c.log_file@ == text_or_default(log_file, default_log_file_text())
                &&& c.server_address@ == text_or_default(
                    server_address,
                    default_server_address_text(),
                )
                &&& c.server_port == number_or_default(server_port, DEFAULT_SERVER_PORT)
                &&& c.htpasswd_path@ == text_or_default(
                    htpasswd_path,
                    default_htpasswd_path_text(),
                )
                &&& c.services_path@ == text_or_default(
                    services_path,
                    default_services_path_text(),
                )
            },
    {
        let log_level = text_value(log_level, default_log_level())?;
        let log_file = text_value(log_file, default_log_file())?;
        let server_address = text_value(server_address, default_server_address())?;
        let server_port = match server_port {
            Setting::Missing => default_server_port(),
            Setting::Found(p) => p,
            Setting::Invalid(e) => {
                return Err(e);
            },
        };
        let htpasswd_path = text_value(htpasswd_path, default_htpasswd_path())?;
        let services_path = text_value(services_path, default_services_path())?;
        Ok(Config { log_level, log_file, server_address, server_port, htpasswd_path, services_path })
    }

    /// Loads the configuration from the named file, when there is one; every
    /// key that it does not hold takes its default. A file that cannot be
    /// read or parsed, or a key that holds a value of the wrong type, is an
    /// error.
    pub fn from_file(file: &str) -> (r: Result<Config, ConfigError>) {
        let settings = load_settings(file)?;
        Config::from_settings(
            text_setting(&settings, "log_level"),
            text_setting(&settings, "log_file"),
            text_setting(&settings, "server_address"),
            port_setting(&settings, "server_port"),
            text_setting(&settings, "htpasswd_path"),
            text_setting(&settings, "services_path"),
        )
    }
}

} // verus!
