use vstd::prelude::*;

use crate::headers::{names_match, same_name};
use crate::text::{chars_of, parse_u64, u64_of};

verus! {

/// Where the service runs. In development a configuration file is read
/// beneath the environment's settings.
#[derive(Clone, Copy, Debug, PartialEq, Eq, Structural)]
pub enum Environment {
    Development,
    Production,
}

/// How much the service logs and traces.
#[derive(Clone, Copy, Debug, PartialEq, Eq, Structural)]
pub enum ObservabilityLevel {
    Trace,
    Debug,
    Info,
    Warn,
    Error,
}

pub open spec fn level_filter(l: ObservabilityLevel) -> Seq<char> {
    match l {
        ObservabilityLevel::Trace => "trace"@,
        ObservabilityLevel::Debug => "debug"@,
        ObservabilityLevel::Info => "info"@,
        ObservabilityLevel::Warn => "warn"@,
        ObservabilityLevel::Error => "error"@,
    }
}

impl ObservabilityLevel {
    /// The level as a log filter.
    pub fn as_ref(&self) -> (r: &'static str)
        ensures
            r@ == level_filter(*self),
    {
        match self {
            ObservabilityLevel::Trace => "trace",
            ObservabilityLevel::Debug => "debug",
            ObservabilityLevel::Info => "info",
            ObservabilityLevel::Warn => "warn",
            ObservabilityLevel::Error => "error",
        }
    }
}

#[derive(Debug)]
pub struct ServerConfig {
    pub host: String,
    pub port: u16,
}

#[derive(Debug)]
pub struct ObservabilityConfig {
    pub level: ObservabilityLevel,
    pub otlp_endpoint: String,
    pub service_name: String,
    pub service_version: String,
}

#[derive(Debug)]
pub struct Config {
    pub server: ServerConfig,
    pub observability: ObservabilityConfig,
}

/// The settings that make up a `Config`.
#[derive(Clone, Copy, Debug, PartialEq, Eq, Structural)]
pub enum ConfigField {
    ServerHost,
    ServerPort,
    Level,
    OtlpEndpoint,
    ServiceName,
    ServiceVersion,
}

pub open spec fn field_key(f: ConfigField) -> Seq<char> {
    match f {
        ConfigField::ServerHost => "server.host"@,
        ConfigField::ServerPort => "server.port"@,
        ConfigField::Level => "observability.level"@,
        ConfigField::OtlpEndpoint => "observability.otlp_endpoint"@,
        ConfigField::ServiceName => "observability.service_name"@,
        ConfigField::ServiceVersion => "observability.service_version"@,
    }
}

impl ConfigField {
    /// The setting's key, with `.` between its levels.
    pub fn key(&self) -> (r: &'static str)
        ensures
            r@ == field_key(*self),
    {
        match self {
            ConfigField::ServerHost => "server.host",
            ConfigField::ServerPort => "server.port",
            ConfigField::Level => "observability.level",
            ConfigField::OtlpEndpoint => "observability.otlp_endpoint",
            ConfigField::ServiceName => "observability.service_name",
            ConfigField::ServiceVersion => "observability.service_version",
        }
    }
}

#[derive(Clone, Copy, Debug, PartialEq, Eq, Structural)]
pub enum ConfigError {
    /// No environment was named.
    MissingEnvironment,
    /// The environment is neither `development` nor `production`.
    InvalidEnvironment,
    /// No source gives the setting.
    Missing(ConfigField),
    /// The setting's value is not of its type.
    Invalid(ConfigField),
}

/// One setting read from a source; keys compare without regard to ASCII case.
#[derive(Debug)]
pub struct Setting {
    pub key: String,
    pub value: String,
}

pub open spec fn environment_of(value: Option<Seq<char>>) -> Result<Environment, ConfigError> {
    match value {
        None => Err(ConfigError::MissingEnvironment),
        Some(v) => if v == "development"@ {
            Ok(Environment::Development)
        } else if v == "production"@ {
            Ok(Environment::Production)
        } else {
            Err(ConfigError::InvalidEnvironment)
        },
    }
}

pub fn text_equals(a: &str, b: &str) -> (r: bool)
    ensures
        r == (a@ == b@),
{
    let ac = chars_of(a);
    let bc = chars_of(b);
    if ac.len() != bc.len() {
        return false;
    }
    let mut i: usize = 0;
    while i < ac.len()
        invariant
            ac@ == a@,
            bc@ == b@,
            ac@.len() == bc@.len(),
            i <= ac@.len(),
            forall|j: int| 0 <= j < i ==> a@[j] == b@[j],
        decreases ac@.len() - i,
    {
        if ac[i] != bc[i] {
            return false;
        }
        i = i + 1;
    }
    assert(a@ =~= b@);
    true
}

impl Environment {
    /// The environment that a value of the `ENVIRONMENT` variable names.
    pub fn from_value(value: Option<&str>) -> (r: Result<Environment, ConfigError>)
        ensures
            r == environment_of(crate::forwarded::opt_view(value)),
    {
        match value {
            None => Err(ConfigError::MissingEnvironment),
            Some(v) => if text_equals(v, "development") {
                Ok(Environment::Development)
            } else if text_equals(v, "production") {
                Ok(Environment::Production)
            } else {
                Err(ConfigError::InvalidEnvironment)
            },
        }
    }
}

pub struct SettingView {
    pub key: Seq<char>,
    pub value: Seq<char>,
}

pub open spec fn settings_view(s: Seq<Setting>) -> Seq<SettingView> {
    Seq::new(s.len(), |i: int| SettingView { key: s[i].key@, value: s[i].value@ })
}

/// The value that a source gives a key: its last setting of that key.
pub open spec fn setting_value(s: Seq<SettingView>, key: Seq<char>) -> Option<Seq<char>>
    decreases s.len(),
{
    if s.len() == 0 {
        None
    } else if same_name(s.last().key, key) {
        Some(s.last().value)
    } else {
        setting_value(s.drop_last(), key)
    }
}

/// The value of a key once the sources are layered: the environment's
/// settings over the file's, which count in development only.
pub open spec fn layered(
    env: Environment,
    file: Seq<SettingView>,
    vars: Seq<SettingView>,
    key: Seq<char>,
) -> Option<Seq<char>> {
    match setting_value(vars, key) {
        Some(v) => Some(v),
        None => if env == Environment::Development {
            setting_value(file, key)
        } else {
            None
        },
    }
}

pub open spec fn level_of(v: Seq<char>) -> Option<ObservabilityLevel> {
    if v == "Trace"@ {
        Some(ObservabilityLevel::Trace)
    } else if v == "Debug"@ {
        Some(ObservabilityLevel::Debug)
    } else if v == "Info"@ {
        Some(ObservabilityLevel::Info)
    } else if v == "Warn"@ {
        Some(ObservabilityLevel::Warn)
    } else if v == "Error"@ {
        Some(ObservabilityLevel::Error)
    } else {
        None
    }
}

pub open spec fn port_of(v: Seq<char>) -> Option<u16> {
    match u64_of(v) {
        Some(n) => if n <= u16::MAX {
            Some(n as u16)
        } else {
            None
        },
        None => None,
    }
}

/// Whether a field's layered value is present and of the field's type.
pub open spec fn field_ok(f: ConfigField, v: Option<Seq<char>>) -> bool {
    match v {
        None => false,
        Some(t) => match f {
            ConfigField::ServerPort => port_of(t) is Some,
            ConfigField::Level => level_of(t) is Some,
            _ => true,
        },
    }
}

pub open spec fn field_error(f: ConfigField, v: Option<Seq<char>>) -> ConfigError {
    match v {
        None => ConfigError::Missing(f),
        Some(_) => ConfigError::Invalid(f),
    }
}

/// The first thing wrong with the configuration, if any: the environment,
/// then each field in the order of `Config`.
pub open spec fn config_error(
    env_value: Option<Seq<char>>,
    file: Seq<SettingView>,
    vars: Seq<SettingView>,
) -> Option<ConfigError> {
    match environment_of(env_value) {
        Err(e) => Some(e),
        Ok(env) => {
            let fields = seq![
                ConfigField::ServerHost,
                ConfigField::ServerPort,
                ConfigField::Level,
                ConfigField::OtlpEndpoint,
                ConfigField::ServiceName,
                ConfigField::ServiceVersion,
            ];
            first_field_error(env, file, vars, fields)
        },
    }
}

pub open spec fn first_field_error(
    env: Environment,
    file: Seq<SettingView>,
    vars: Seq<SettingView>,
    fields: Seq<ConfigField>,
) -> Option<ConfigError>
    decreases fields.len(),
{
    if fields.len() == 0 {
        None
    } else {
        let v = layered(env, file, vars, field_key(fields[0]));
        if field_ok(fields[0], v) {
            first_field_error(env, file, vars, fields.drop_first())
        } else {
            Some(field_error(fields[0], v))
        }
    }
}

fn find_setting<'s>(s: &'s Vec<Setting>, key: &str) -> (r: Option<&'s String>)
    ensures
        match r {
            Some(v) => setting_value(settings_view(s@), key@) == Some(v@),
            None => setting_value(settings_view(s@), key@) is None,
        },
{
    let ghost sv = settings_view(s@);
    let mut i: usize = s.len();
    assert(sv.subrange(0, sv.len() as int) =~= sv);
    while i > 0
        invariant
            sv == settings_view(s@),
            i <= s@.len(),
            setting_value(sv, key@) == setting_value(sv.subrange(0, i as int), key@),
        decreases i,
    {
        let ghost pre = sv.subrange(0, i as int);
        assert(pre.drop_last() =~= sv.subrange(0, i - 1));
        if names_match(s[i - 1].key.as_str(), key) {
            return Some(&s[i - 1].value);
        }
        i = i - 1;
    }
    None
}

fn layered_value<'s>(env: Environment, file: &'s Vec<Setting>, vars: &'s Vec<Setting>, f: ConfigField) -> (r:
    Option<&'s String>)
    ensures
        match r {
            Some(v) => layered(env, settings_view(file@), settings_view(vars@), field_key(f))
                == Some(v@),
            None => layered(env, settings_view(file@), settings_view(vars@), field_key(f)) is None,
        },
{
    match find_setting(vars, f.key()) {
        Some(v) => Some(v),
        None => match env {
            Environment::Development => find_setting(file, f.key()),
            Environment::Production => None,
        },
    }
}

fn read_level(v: &String) -> (r: Option<ObservabilityLevel>)
    ensures
        r == level_of(v@),
{
    let t = v.as_str();
    if text_equals(t, "Trace") {
        Some(ObservabilityLevel::Trace)
    } else if text_equals(t, "Debug") {
        Some(ObservabilityLevel::Debug)
    } else if text_equals(t, "Info") {
        Some(ObservabilityLevel::Info)
    } else if text_equals(t, "Warn") {
        Some(ObservabilityLevel::Warn)
    } else if text_equals(t, "Error") {
        Some(ObservabilityLevel::Error)
    } else {
        None
    }
}

fn read_port(v: &String) -> (r: Option<u16>)
    ensures
        r == port_of(v@),
{
    match parse_u64(v.as_str()) {
        Some(n) => if n <= 65535 {
            Some(n as u16)
        } else {
            None
        },
        None => None,
    }
}

/// Builds the configuration from the `ENVIRONMENT` variable's value, the
/// settings of the configuration file and those of the environment's
/// variables. The file counts in development only, and a variable wins over
/// the file. Fails with the first of: no or an unknown environment, then, in
/// the order of `Config`, a setting that no source gives or that is not of
/// its type (a port that is no `u16`, a level that is none of `Trace`,
/// `Debug`, `Info`, `Warn`, `Error`).
pub fn load_config(
    environment: Option<&str>,
    file_settings: &Vec<Setting>,
    env_settings: &Vec<Setting>,
) -> (r: Result<Config, ConfigError>)
    ensures
        ({
            let file = settings_view(file_settings@);
            let vars = settings_view(env_settings@);
            let err = config_error(crate::forwarded::opt_view(environment), file, vars);
            match r {
                Err(e) => err == Some(e),
                Ok(c) => err is None && ({
                    let env = environment_of(crate::forwarded::opt_view(environment))->Ok_0;
                    &&& Some(c.server.host@) == layered(
                        env,
                        file,
                        vars,
                        field_key(ConfigField::ServerHost),
                    )
                    &&& Some(c.server.port) == port_of(
                        layered(env, file, vars, field_key(ConfigField::ServerPort))->0,
                    )
                    &&& Some(c.observability.level) == level_of(
                        layered(env, file, vars, field_key(ConfigField::Level))->0,
                    )
                    &&& Some(c.observability.otlp_endpoint@) == layered(
                        env,
                        file,
                        vars,
                        field_key(ConfigField::OtlpEndpoint),
                    )
                    &&& Some(c.observability.service_name@) == layered(
                        env,
                        file,
                        vars,
                        field_key(ConfigField::ServiceName),
                    )
                    &&& Some(c.observability.service_version@) == layered(
                        env,
                        file,
                        vars,
                        field_key(ConfigField::ServiceVersion),
                    )
                }),
            }
        }),
{
    let env = match Environment::from_value(environment) {
        Ok(e) => e,
        Err(e) => return Err(e),
    };
    let ghost file = settings_view(file_settings@);
    let ghost vars = settings_view(env_settings@);
    let ghost fields = seq![
        ConfigField::ServerHost,
        ConfigField::ServerPort,
        ConfigField::Level,
        ConfigField::OtlpEndpoint,
        ConfigField::ServiceName,
        ConfigField::ServiceVersion,
    ];
    proof {
        reveal_with_fuel(first_field_error, 7);
        assert(fields.drop_first() =~= seq![
            ConfigField::ServerPort,
            ConfigField::Level,
            ConfigField::OtlpEndpoint,
            ConfigField::ServiceName,
            ConfigField::ServiceVersion,
        ]);
        assert(fields.drop_first().drop_first() =~= seq![
            ConfigField::Level,
            ConfigField::OtlpEndpoint,
            ConfigField::ServiceName,
            ConfigField::ServiceVersion,
        ]);
        assert(fields.drop_first().drop_first().drop_first() =~= seq![
            ConfigField::OtlpEndpoint,
            ConfigField::ServiceName,
            ConfigField::ServiceVersion,
        ]);
        assert(fields.drop_first().drop_first().drop_first().drop_first() =~= seq![
            ConfigField::ServiceName,
            ConfigField::ServiceVersion,
        ]);
        assert(fields.drop_first().drop_first().drop_first().drop_first().drop_first() =~= seq![
            ConfigField::ServiceVersion,
        ]);
        assert(fields.drop_first().drop_first().drop_first().drop_first().drop_first().drop_first()
            =~= Seq::<ConfigField>::empty());
    }
    let host = match layered_value(env, file_settings, env_settings, ConfigField::ServerHost) {
        Some(v) => v.clone(),
        None => return Err(ConfigError::Missing(ConfigField::ServerHost)),
    };
    let port = match layered_value(env, file_settings, env_settings, ConfigField::ServerPort) {
        Some(v) => match read_port(v) {
            Some(p) => p,
            None => return Err(ConfigError::Invalid(ConfigField::ServerPort)),
        },
        None => return Err(ConfigError::Missing(ConfigField::ServerPort)),
    };
    let level = match layered_value(env, file_settings, env_settings, ConfigField::Level) {
        Some(v) => match read_level(v) {
            Some(l) => l,
            None => return Err(ConfigError::Invalid(ConfigField::Level)),
        },
        None => return Err(ConfigError::Missing(ConfigField::Level)),
    };
    let otlp_endpoint = match layered_value(
        env,
        file_settings,
        env_settings,
        ConfigField::OtlpEndpoint,
    ) {
        Some(v) => v.clone(),
        None => return Err(ConfigError::Missing(ConfigField::OtlpEndpoint)),
    };
    let service_name = match layered_value(
        env,
        file_settings,
        env_settings,
        ConfigField::ServiceName,
    ) {
        Some(v) => v.clone(),
        None => return Err(ConfigError::Missing(ConfigField::ServiceName)),
    };
    let service_version = match layered_value(
        env,
        file_settings,
        env_settings,
        ConfigField::ServiceVersion,
    ) {
        Some(v) => v.clone(),
        None => return Err(ConfigError::Missing(ConfigField::ServiceVersion)),
    };
    Ok(
        Config {
            server: ServerConfig { host, port },
            observability: ObservabilityConfig {
                level,
                otlp_endpoint,
                service_name,
                service_version,
            },
        },
    )
}

} // verus!
