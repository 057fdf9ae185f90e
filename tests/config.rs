use ruma::config::{ends_with, format_of, Config, ConfigError, ConfigFormat, FileProbe, RawConfig};

fn raw(key: &str) -> RawConfig {
    RawConfig {
        bind_address: None,
        bind_port: None,
        domain: "ruma.test".to_string(),
        macaroon_secret_key: key.to_string(),
        postgres_url: "postgres://localhost/ruma".to_string(),
    }
}

const KEY: &str = "AAECAwQFBgcICQoLDA0ODxAREhMUFRYXGBkaGxwdHh8=";

#[test]
fn valid_config_takes_defaults() {
    let config = Config::from_raw(raw(KEY)).unwrap();

    assert_eq!(config.bind_address, "127.0.0.1");
    assert_eq!(config.bind_port, "3000");
    assert_eq!(config.domain, "ruma.test");
    assert_eq!(config.macaroon_secret_key, (0u8..32).collect::<Vec<u8>>());
}

#[test]
fn explicit_address_and_port_are_kept() {
    let mut r = raw(KEY);
    r.bind_address = Some("0.0.0.0".to_string());
    r.bind_port = Some("8080".to_string());

    let config = Config::from_raw(r).unwrap();

    assert_eq!(config.bind_address, "0.0.0.0");
    assert_eq!(config.bind_port, "8080");
}

#[test]
fn secret_must_be_base64() {
    assert_eq!(Config::from_raw(raw("not base64!")).unwrap_err(), ConfigError::SecretNotBase64);
}

#[test]
fn secret_must_be_32_bytes() {
    assert_eq!(Config::from_raw(raw("AAECAw==")).unwrap_err(), ConfigError::SecretWrongLength);
}

#[test]
fn format_by_extension() {
    assert_eq!(format_of("server.json"), Some(ConfigFormat::Json));
    assert_eq!(format_of("server.toml"), Some(ConfigFormat::Toml));
    assert_eq!(format_of("server.yml"), Some(ConfigFormat::Yaml));
    assert_eq!(format_of("server.yaml"), Some(ConfigFormat::Yaml));
    assert_eq!(format_of("server.ini"), None);
    assert!(ends_with("abc", "bc"));
    assert!(!ends_with("c", "bc"));
}

fn probe(custom: bool, json: bool, toml: bool, yaml: bool, yml: bool) -> FileProbe {
    FileProbe { custom, json, toml, yaml, yml }
}

#[test]
fn locate_custom_file() {
    let found = Config::locate(Some("my.toml"), probe(true, true, false, false, false)).unwrap();
    assert_eq!(found.path, "my.toml");
    assert_eq!(found.format, ConfigFormat::Toml);

    let missing = Config::locate(Some("my.toml"), probe(false, true, false, false, false));
    assert_eq!(missing.unwrap_err(), ConfigError::CustomFileNotFound);

    let unknown = Config::locate(Some("my.ini"), probe(true, false, false, false, false));
    assert_eq!(unknown.unwrap_err(), ConfigError::UnknownFormat);
}

#[test]
fn locate_default_files_in_order() {
    let json = Config::locate(None, probe(false, true, true, true, true)).unwrap();
    assert_eq!(json.path, "ruma.json");
    let toml = Config::locate(None, probe(false, false, true, true, true)).unwrap();
    assert_eq!(toml.path, "ruma.toml");
    let yaml = Config::locate(None, probe(false, false, false, true, true)).unwrap();
    assert_eq!(yaml.path, "ruma.yaml");
    let yml = Config::locate(None, probe(false, false, false, false, true)).unwrap();
    assert_eq!(yml.path, "ruma.yml");
    assert_eq!(yml.format, ConfigFormat::Yaml);
    let none = Config::locate(None, probe(false, false, false, false, false));
    assert_eq!(none.unwrap_err(), ConfigError::NoConfigFile);
}

#[test]
fn error_messages_are_present() {
    assert_eq!(ConfigError::SecretWrongLength.message(), "macaroon_secret_key must be 32 bytes.");
    assert!(!ConfigError::NoConfigFile.message().is_empty());
}

#[test]
fn generated_secret_key_is_accepted() {
    let key = ruma::config::generate_secret_key();

    let config = Config::from_raw(raw(&key)).unwrap();

    assert_eq!(config.macaroon_secret_key.len(), 32);
    assert_ne!(key, ruma::config::generate_secret_key());
}
