use pdydns::config::{
    default_interval_seconds, default_public_ip_url, default_server_id, default_ttl,
    env_or_file_number_with_default, env_or_file_required_string,
    env_or_file_string_with_default, env_records, normalize_dns_name, normalize_record_name,
    AppConfig, ConfigError, ConfigFile, EnvSnapshot, EnvValue, PowerDnsConfig,
    PowerDnsConfigFile, RecordTarget, RecordsEnv, Setting, INTERVAL_SECONDS_ENV,
    POWERDNS_API_KEY_ENV,
};
use pdydns::number::NumberError;

fn record(zone: &str, name: &str, ttl: Option<u32>) -> RecordTarget {
    RecordTarget { zone: zone.to_string(), name: name.to_string(), ttl }
}

fn present(v: &str) -> EnvValue {
    EnvValue::Present(v.to_string())
}

fn empty_env() -> EnvSnapshot {
    EnvSnapshot {
        api_url: EnvValue::NotPresent,
        api_key: EnvValue::NotPresent,
        server_id: EnvValue::NotPresent,
        interval_seconds: EnvValue::NotPresent,
        default_ttl: EnvValue::NotPresent,
        public_ip_url: EnvValue::NotPresent,
        records: RecordsEnv::NotPresent,
    }
}

fn valid_config() -> AppConfig {
    AppConfig {
        powerdns: PowerDnsConfig {
            api_url: "http://127.0.0.1:8081".to_string(),
            api_key: "secret".to_string(),
            server_id: "localhost".to_string(),
        },
        records: vec![record("example.com", "home", None)],
        interval_seconds: 60,
        default_ttl: 120,
        public_ip_url: "https://api4.ipify.org?format=json".to_string(),
    }
}

#[test]
fn normalizes_relative_and_absolute_names() {
    assert_eq!(normalize_dns_name("example.com"), "example.com.");
    assert_eq!(normalize_record_name("home", "example.com"), "home.example.com.");
    assert_eq!(normalize_record_name("home.example.com", "example.com"), "home.example.com.");
    assert_eq!(normalize_record_name("home.example.com.", "example.com"), "home.example.com.");
}

// The configuration file of the original test, as it reads:
// powerdns = { api_url = "http://127.0.0.1:8081" }, interval_seconds = 60,
// default_ttl = 120, one record (example.com, home, ttl 600); the API key
// comes from the environment.
#[test]
fn loads_config() {
    let file = ConfigFile {
        powerdns: PowerDnsConfigFile {
            api_url: Some("http://127.0.0.1:8081".to_string()),
            api_key: None,
            server_id: None,
        },
        records: vec![record("example.com", "home", Some(600))],
        interval_seconds: Some(60),
        default_ttl: Some(120),
        public_ip_url: None,
    };
    let mut env = empty_env();
    env.api_key = present("secret");
    let config = AppConfig::load(file, env).expect("config");
    assert_eq!(config.interval_seconds, 60);
    assert_eq!(config.default_ttl, 120);
    assert_eq!(config.records.len(), 1);
    assert_eq!(config.powerdns.api_key, "secret");
    assert_eq!(config.records[0].normalized_name(), "home.example.com.");
    assert_eq!(config.records[0].ttl(config.default_ttl), 600);
}

#[test]
fn env_overrides_file_values() {
    let file = ConfigFile {
        powerdns: PowerDnsConfigFile {
            api_url: Some("http://127.0.0.1:8081".to_string()),
            api_key: Some("file-secret".to_string()),
            server_id: Some("file-server".to_string()),
        },
        records: vec![record("file.com", "home", Some(600))],
        interval_seconds: Some(60),
        default_ttl: Some(120),
        public_ip_url: Some("https://file.example.com/ip".to_string()),
    };
    let env = EnvSnapshot {
        api_url: present("http://override:8081"),
        api_key: present("env-secret"),
        server_id: present("env-server"),
        interval_seconds: present("30"),
        default_ttl: present("90"),
        public_ip_url: present("https://example.com/ip"),
        // The JSON [{"zone":"env.com","name":"home","ttl":42}], read.
        records: RecordsEnv::Parsed(vec![record("env.com", "home", Some(42))]),
    };
    let config = AppConfig::load(file, env).expect("config");
    assert_eq!(config.powerdns.api_url, "http://override:8081");
    assert_eq!(config.powerdns.api_key, "env-secret");
    assert_eq!(config.powerdns.server_id, "env-server");
    assert_eq!(config.interval_seconds, 30);
    assert_eq!(config.default_ttl, 90);
    assert_eq!(config.public_ip_url, "https://example.com/ip");
    assert_eq!(config.records.len(), 1);
    assert_eq!(config.records[0].zone, "env.com");
    assert_eq!(config.records[0].name, "home");
    assert_eq!(config.records[0].ttl, Some(42));
}

#[test]
fn loads_from_env_without_config_file() {
    let mut env = empty_env();
    env.api_url = present("http://env-only:8081");
    env.api_key = present("env-only-secret");
    // The JSON [{"zone":"env.com","name":"home"}], read.
    env.records = RecordsEnv::Parsed(vec![record("env.com", "home", None)]);
    let config = AppConfig::load(ConfigFile::default(), env).expect("config");
    assert_eq!(config.powerdns.api_url, "http://env-only:8081");
    assert_eq!(config.powerdns.api_key, "env-only-secret");
    assert_eq!(config.records.len(), 1);
    assert_eq!(config.records[0].zone, "env.com");
    // Unset values take their defaults.
    assert_eq!(config.powerdns.server_id, "localhost");
    assert_eq!(config.interval_seconds, 300);
    assert_eq!(config.default_ttl, 300);
    assert_eq!(config.public_ip_url, "https://api4.ipify.org?format=json");
}

#[test]
fn defaults_have_their_documented_values() {
    assert_eq!(default_interval_seconds(), 300);
    assert_eq!(default_ttl(), 300);
    assert_eq!(default_public_ip_url(), "https://api4.ipify.org?format=json");
    assert_eq!(default_server_id(), "localhost");
}

#[test]
fn normalization_trims_white_space() {
    assert_eq!(normalize_dns_name("  example.com \t"), "example.com.");
    assert_eq!(normalize_dns_name("example.com."), "example.com.");
    assert_eq!(normalize_dns_name(""), ".");
    assert_eq!(normalize_dns_name("\u{3000}zone\u{a0}"), "zone.");
    assert_eq!(normalize_record_name(" home ", " example.com "), "home.example.com.");
    assert_eq!(normalize_record_name("", "example.com"), ".example.com.");
}

#[test]
fn normalization_is_idempotent() {
    let once = normalize_dns_name(" example.org ");
    assert_eq!(normalize_dns_name(&once), once);
    let name = normalize_record_name("www", "example.org");
    assert_eq!(normalize_record_name(&name, "other.net"), name);
}

#[test]
fn record_name_with_dot_ignores_zone() {
    assert_eq!(normalize_record_name("a.b", "zone.one"), normalize_record_name("a.b", "zone.two"));
    assert_eq!(normalize_record_name("a", "zone.one"), "a.zone.one.");
}

#[test]
fn record_accessors() {
    let r = record(" example.com ", "home", None);
    assert_eq!(r.normalized_zone(), "example.com.");
    assert_eq!(r.normalized_name(), "home.example.com.");
    assert_eq!(r.ttl(77), 77);
    assert_eq!(record("z", "n", Some(5)).ttl(77), 5);
}

#[test]
fn record_validation_errors() {
    assert!(record("example.com", "home", None).validate().is_ok());
    assert!(matches!(
        record("  ", "home", None).validate(),
        Err(ConfigError::BlankRecordZone)
    ));
    assert!(matches!(
        record("example.com", "\t", None).validate(),
        Err(ConfigError::BlankRecordName)
    ));
    assert!(matches!(record("", "", None).validate(), Err(ConfigError::BlankRecordZone)));
}

#[test]
fn config_validation_errors() {
    assert!(valid_config().validate().is_ok());
    let mut c = valid_config();
    c.interval_seconds = 0;
    assert!(matches!(c.validate(), Err(ConfigError::ZeroInterval)));
    let mut c = valid_config();
    c.records.clear();
    assert!(matches!(c.validate(), Err(ConfigError::NoRecords)));
    let mut c = valid_config();
    c.powerdns.api_url = " ".to_string();
    assert!(matches!(c.validate(), Err(ConfigError::BlankApiUrl)));
    let mut c = valid_config();
    c.powerdns.api_key = String::new();
    assert!(matches!(c.validate(), Err(ConfigError::BlankApiKey)));
    let mut c = valid_config();
    c.records.push(record("z", " ", None));
    c.records.push(record(" ", "n", None));
    assert!(matches!(c.validate(), Err(ConfigError::BlankRecordName)));
}

#[test]
fn required_values_resolve_in_order() {
    let r = env_or_file_required_string(Setting::ApiKey, present("env"), Some("file".to_string()));
    assert_eq!(r.unwrap(), "env");
    let r = env_or_file_required_string(Setting::ApiKey, EnvValue::NotPresent, Some("file".to_string()));
    assert_eq!(r.unwrap(), "file");
    let r = env_or_file_required_string(Setting::ApiKey, EnvValue::NotPresent, None);
    assert!(matches!(r, Err(ConfigError::MissingValue(Setting::ApiKey))));
    let r = env_or_file_required_string(
        Setting::ApiUrl,
        EnvValue::NotUnicode("\"\\xFF\"".to_string()),
        Some("file".to_string()),
    );
    assert!(matches!(r, Err(ConfigError::Unreadable(Setting::ApiUrl, d)) if d == "\"\\xFF\""));
}

#[test]
fn defaulted_values_resolve_in_order() {
    let d = || "default".to_string();
    let r = env_or_file_string_with_default(Setting::ServerId, present("e"), Some("f".to_string()), d());
    assert_eq!(r.unwrap(), "e");
    let r = env_or_file_string_with_default(Setting::ServerId, EnvValue::NotPresent, Some("f".to_string()), d());
    assert_eq!(r.unwrap(), "f");
    let r = env_or_file_string_with_default(Setting::ServerId, EnvValue::NotPresent, None, d());
    assert_eq!(r.unwrap(), "default");
}

#[test]
fn numbers_resolve_and_parse() {
    let n = |env: EnvValue, file: Option<u64>| {
        env_or_file_number_with_default(Setting::IntervalSeconds, env, file, 300, u64::MAX)
    };
    assert_eq!(n(present("30"), Some(60)).unwrap(), 30);
    assert_eq!(n(present("+30"), None).unwrap(), 30);
    assert_eq!(n(EnvValue::NotPresent, Some(60)).unwrap(), 60);
    assert_eq!(n(EnvValue::NotPresent, None).unwrap(), 300);
    assert_eq!(n(present("18446744073709551615"), None).unwrap(), u64::MAX);
    assert!(matches!(
        n(present("18446744073709551616"), None),
        Err(ConfigError::Unparsable(Setting::IntervalSeconds, NumberError::TooLarge))
    ));
    assert!(matches!(
        n(present(""), None),
        Err(ConfigError::Unparsable(Setting::IntervalSeconds, NumberError::Empty))
    ));
    assert!(matches!(
        n(present(" 30"), None),
        Err(ConfigError::Unparsable(Setting::IntervalSeconds, NumberError::InvalidDigit))
    ));
    assert!(matches!(
        n(EnvValue::NotUnicode("x".to_string()), Some(1)),
        Err(ConfigError::Unreadable(Setting::IntervalSeconds, _))
    ));
    let ttl = env_or_file_number_with_default(Setting::DefaultTtl, present("4294967296"), None, 300, u32::MAX as u64);
    assert!(matches!(ttl, Err(ConfigError::Unparsable(Setting::DefaultTtl, NumberError::TooLarge))));
}

#[test]
fn environment_records_outcomes() {
    let r = env_records(RecordsEnv::Parsed(vec![record("a", "b", None)])).unwrap().unwrap();
    assert_eq!(r.len(), 1);
    assert!(env_records(RecordsEnv::NotPresent).unwrap().is_none());
    assert!(matches!(
        env_records(RecordsEnv::Unparsable("bad".to_string())),
        Err(ConfigError::RecordsUnparsable(_))
    ));
    assert!(matches!(
        env_records(RecordsEnv::NotUnicode("x".to_string())),
        Err(ConfigError::Unreadable(Setting::Records, _))
    ));
}

#[test]
fn load_reports_the_first_problem() {
    // Nothing set anywhere: the API URL is missing first.
    assert!(matches!(
        AppConfig::load(ConfigFile::default(), empty_env()),
        Err(ConfigError::MissingValue(Setting::ApiUrl))
    ));
    let mut env = empty_env();
    env.api_url = present("http://x");
    assert!(matches!(
        AppConfig::load(ConfigFile::default(), env),
        Err(ConfigError::MissingValue(Setting::ApiKey))
    ));
    // Values present but no records: rejected by the checks.
    let mut env = empty_env();
    env.api_url = present("http://x");
    env.api_key = present("k");
    assert!(matches!(AppConfig::load(ConfigFile::default(), env), Err(ConfigError::NoRecords)));
    // A bad interval in the environment wins over later problems.
    let mut env = empty_env();
    env.api_url = present("http://x");
    env.api_key = present("k");
    env.interval_seconds = present("soon");
    env.records = RecordsEnv::Unparsable("bad".to_string());
    assert!(matches!(
        AppConfig::load(ConfigFile::default(), env),
        Err(ConfigError::Unparsable(Setting::IntervalSeconds, NumberError::InvalidDigit))
    ));
    // A zero interval from the environment is loaded and then rejected.
    let mut env = empty_env();
    env.api_url = present("http://x");
    env.api_key = present("k");
    env.interval_seconds = present("0");
    env.records = RecordsEnv::Parsed(vec![record("a", "b", None)]);
    assert!(matches!(AppConfig::load(ConfigFile::default(), env), Err(ConfigError::ZeroInterval)));
}

#[test]
fn setting_names() {
    assert_eq!(Setting::ApiKey.env_name(), POWERDNS_API_KEY_ENV);
    assert_eq!(Setting::IntervalSeconds.env_name(), INTERVAL_SECONDS_ENV);
    assert_eq!(Setting::Records.env_name(), "PDYDNS_RECORDS");
}
