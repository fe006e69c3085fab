use server::config::{
    load_config, ConfigError, ConfigField, Environment, ObservabilityLevel, Setting,
};

fn setting(key: &str, value: &str) -> Setting {
    Setting { key: key.to_string(), value: value.to_string() }
}

fn complete() -> Vec<Setting> {
    vec![
        setting("server.host", "0.0.0.0"),
        setting("server.port", "3000"),
        setting("observability.level", "Info"),
        setting("observability.otlp_endpoint", "http://localhost:4317"),
        setting("observability.service_name", "server"),
        setting("observability.service_version", "0.1.0"),
    ]
}

#[test]
fn environment_values() {
    assert_eq!(Environment::from_value(Some("development")), Ok(Environment::Development));
    assert_eq!(Environment::from_value(Some("production")), Ok(Environment::Production));
    assert_eq!(Environment::from_value(Some("staging")), Err(ConfigError::InvalidEnvironment));
    assert_eq!(Environment::from_value(None), Err(ConfigError::MissingEnvironment));
}

#[test]
fn production_reads_variables() {
    let c = load_config(Some("production"), &Vec::new(), &complete()).unwrap();
    assert_eq!(c.server.host, "0.0.0.0");
    assert_eq!(c.server.port, 3000);
    assert_eq!(c.observability.level, ObservabilityLevel::Info);
    assert_eq!(c.observability.otlp_endpoint, "http://localhost:4317");
    assert_eq!(c.observability.service_name, "server");
    assert_eq!(c.observability.service_version, "0.1.0");
}

#[test]
fn production_ignores_file() {
    let r = load_config(Some("production"), &complete(), &Vec::new());
    assert_eq!(r.unwrap_err(), ConfigError::Missing(ConfigField::ServerHost));
}

#[test]
fn development_layers_variables_over_file() {
    let vars = vec![setting("SERVER.PORT", "8080"), setting("observability.level", "Debug")];
    let c = load_config(Some("development"), &complete(), &vars).unwrap();
    assert_eq!(c.server.port, 8080);
    assert_eq!(c.server.host, "0.0.0.0");
    assert_eq!(c.observability.level, ObservabilityLevel::Debug);
}

#[test]
fn last_setting_of_a_source_wins() {
    let mut vars = complete();
    vars.push(setting("server.host", "127.0.0.1"));
    let c = load_config(Some("production"), &Vec::new(), &vars).unwrap();
    assert_eq!(c.server.host, "127.0.0.1");
}

#[test]
fn config_errors() {
    assert_eq!(
        load_config(None, &Vec::new(), &complete()).unwrap_err(),
        ConfigError::MissingEnvironment
    );
    assert_eq!(
        load_config(Some("test"), &Vec::new(), &complete()).unwrap_err(),
        ConfigError::InvalidEnvironment
    );
    let mut vars = complete();
    vars.push(setting("server.port", "70000"));
    assert_eq!(
        load_config(Some("production"), &Vec::new(), &vars).unwrap_err(),
        ConfigError::Invalid(ConfigField::ServerPort)
    );
    let mut vars = complete();
    vars.push(setting("observability.level", "verbose"));
    assert_eq!(
        load_config(Some("production"), &Vec::new(), &vars).unwrap_err(),
        ConfigError::Invalid(ConfigField::Level)
    );
    let vars: Vec<Setting> = complete().into_iter().take(5).collect();
    assert_eq!(
        load_config(Some("production"), &Vec::new(), &vars).unwrap_err(),
        ConfigError::Missing(ConfigField::ServiceVersion)
    );
}

#[test]
fn level_filters() {
    assert_eq!(ObservabilityLevel::Trace.as_ref(), "trace");
    assert_eq!(ObservabilityLevel::Warn.as_ref(), "warn");
    assert_eq!(ObservabilityLevel::Error.as_ref(), "error");
}
