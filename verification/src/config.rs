//! The service's configuration: where its values come from, how they are
//! checked, and how the DNS names of the records are normalised.
//!
//! Every value is taken from the environment when it is set there, else from
//! the configuration file, else from a default where one exists.
use vstd::prelude::*;
use crate::number::{NumberError, decimal_number, parse_decimal};
use crate::text::{
    is_blank, trimmed, ends_with_char, trim, ends_with, contains_char, is_blank_str,
    lemma_trimmed_ends, lemma_trim_of_untrimmable,
};

verus! {

/// Environment variable that sets the PowerDNS API base URL.
pub const POWERDNS_API_URL_ENV: &'static str = "PDYDNS_POWERDNS_API_URL";

/// Environment variable that sets the PowerDNS API key.
pub const POWERDNS_API_KEY_ENV: &'static str = "PDYDNS_POWERDNS_API_KEY";

/// Environment variable that sets the PowerDNS server id.
pub const POWERDNS_SERVER_ID_ENV: &'static str = "PDYDNS_POWERDNS_SERVER_ID";

/// Environment variable that sets the records, as a JSON array.
pub const RECORDS_ENV: &'static str = "PDYDNS_RECORDS";

/// Environment variable that sets the polling interval in seconds.
pub const INTERVAL_SECONDS_ENV: &'static str = "PDYDNS_INTERVAL_SECONDS";

/// Environment variable that sets the default TTL of the records.
pub const DEFAULT_TTL_ENV: &'static str = "PDYDNS_DEFAULT_TTL";

/// Environment variable that sets the URL of the public-ip service.
pub const PUBLIC_IP_URL_ENV: &'static str = "PDYDNS_PUBLIC_IP_URL";

/// The configurable values that the environment can set.
#[derive(Clone, Copy, Debug, PartialEq, Eq, Structural)]
pub enum Setting {
    ApiUrl,
    ApiKey,
    ServerId,
    IntervalSeconds,
    DefaultTtl,
    PublicIpUrl,
    Records,
}

impl Setting {
    /// The name of the environment variable that sets this value.
    pub fn env_name(self) -> (r: &'static str)
        ensures
            r@ == match self {
                Setting::ApiUrl => POWERDNS_API_URL_ENV@,
                Setting::ApiKey => POWERDNS_API_KEY_ENV@,
                Setting::ServerId => POWERDNS_SERVER_ID_ENV@,
                Setting::IntervalSeconds => INTERVAL_SECONDS_ENV@,
                Setting::DefaultTtl => DEFAULT_TTL_ENV@,
                Setting::PublicIpUrl => PUBLIC_IP_URL_ENV@,
                Setting::Records => RECORDS_ENV@,
            },
    {
        match self {
            Setting::ApiUrl => POWERDNS_API_URL_ENV,
            Setting::ApiKey => POWERDNS_API_KEY_ENV,
            Setting::ServerId => POWERDNS_SERVER_ID_ENV,
            Setting::IntervalSeconds => INTERVAL_SECONDS_ENV,
            Setting::DefaultTtl => DEFAULT_TTL_ENV,
            Setting::PublicIpUrl => PUBLIC_IP_URL_ENV,
            Setting::Records => RECORDS_ENV,
        }
    }
}

/// Why a configuration cannot be loaded.
#[derive(Clone, Debug)]
pub enum ConfigError {
    /// A required value is set neither in the environment nor in the file.
    MissingValue(Setting),
    /// The environment variable is set but is not valid Unicode; the text
    /// describes the value.
    Unreadable(Setting, String),
    /// The environment variable is not a number in range.
    Unparsable(Setting, NumberError),
    /// The records variable is not a JSON array of records; the text says why.
    RecordsUnparsable(String),
    /// The polling interval is zero.
    ZeroInterval,
    /// No record is configured.
    NoRecords,
    /// The API URL is blank.
    BlankApiUrl,
    /// The API key is blank.
    BlankApiKey,
    /// A record's zone is blank.
    BlankRecordZone,
    /// A record's name is blank.
    BlankRecordName,
}

/// What the environment holds for one variable.
#[derive(Clone, Debug)]
pub enum EnvValue {
    /// The variable is set to this text.
    Present(String),
    /// The variable is not set.
    NotPresent,
    /// The variable is set but is not valid Unicode; the text describes it.
    NotUnicode(String),
}

/// What the environment holds for the records variable, read as JSON.
#[derive(Clone, Debug)]
pub enum RecordsEnv {
    /// The variable holds these records.
    Parsed(Vec<RecordTarget>),
    /// The variable is set but is not a JSON array of records; the text says why.
    Unparsable(String),
    /// The variable is not set.
    NotPresent,
    /// The variable is set but is not valid Unicode; the text describes it.
    NotUnicode(String),
}

/// The environment variables that the configuration reads.
#[derive(Clone, Debug)]
pub struct EnvSnapshot {
    pub api_url: EnvValue,
    pub api_key: EnvValue,
    pub server_id: EnvValue,
    pub interval_seconds: EnvValue,
    pub default_ttl: EnvValue,
    pub public_ip_url: EnvValue,
    pub records: RecordsEnv,
}

/// One `A` record to keep up to date.
#[derive(Clone, Debug)]
pub struct RecordTarget {
    pub zone: String,
    pub name: String,
    pub ttl: Option<u32>,
}

/// The PowerDNS connection settings.
#[derive(Clone, Debug)]
pub struct PowerDnsConfig {
    pub api_url: String,
    pub api_key: String,
    pub server_id: String,
}

/// The complete, checked configuration.
#[derive(Clone, Debug)]
pub struct AppConfig {
    pub powerdns: PowerDnsConfig,
    pub records: Vec<RecordTarget>,
    pub interval_seconds: u64,
    pub default_ttl: u32,
    pub public_ip_url: String,
}

/// The PowerDNS section of the configuration file; every value is optional.
#[derive(Clone, Debug)]
pub struct PowerDnsConfigFile {
    pub api_url: Option<String>,
    pub api_key: Option<String>,
    pub server_id: Option<String>,
}

/// The configuration file's contents; every value is optional.
#[derive(Clone, Debug)]
pub struct ConfigFile {
    pub powerdns: PowerDnsConfigFile,
    pub records: Vec<RecordTarget>,
    pub interval_seconds: Option<u64>,
    pub default_ttl: Option<u32>,
    pub public_ip_url: Option<String>,
}

/// A record as text.
pub struct RecordView {
    pub zone: Seq<char>,
    pub name: Seq<char>,
    pub ttl: Option<u32>,
}

/// A configuration as text and numbers.
pub struct ConfigView {
    pub api_url: Seq<char>,
    pub api_key: Seq<char>,
    pub server_id: Seq<char>,
    pub records: Seq<RecordView>,
    pub interval_seconds: u64,
    pub default_ttl: u32,
    pub public_ip_url: Seq<char>,
}

impl View for RecordTarget {
    type V = RecordView;

    open spec fn view(&self) -> RecordView {
        RecordView { zone: self.zone@, name: self.name@, ttl: self.ttl }
    }
}

/// The records of a list, as text.
pub open spec fn records_view(records: Seq<RecordTarget>) -> Seq<RecordView> {
    records.map_values(|r: RecordTarget| r@)
}

impl View for AppConfig {
    type V = ConfigView;

    open spec fn view(&self) -> ConfigView {
        ConfigView {
            api_url: self.powerdns.api_url@,
            api_key: self.powerdns.api_key@,
            server_id: self.powerdns.server_id@,
            records: records_view(self.records@),
            interval_seconds: self.interval_seconds,
            default_ttl: self.default_ttl,
            public_ip_url: self.public_ip_url@,
        }
    }
}

impl Default for PowerDnsConfigFile {
    fn default() -> (r: Self)
        ensures
            r.api_url is None,
            r.api_key is None,
            r.server_id is None,
    {
        PowerDnsConfigFile { api_url: None, api_key: None, server_id: None }
    }
}

impl Default for ConfigFile {
    /// The contents of a missing configuration file: nothing is set.
    fn default() -> (r: Self)
        ensures
            r.powerdns.api_url is None,
            r.powerdns.api_key is None,
            r.powerdns.server_id is None,
            r.records@.len() == 0,
            r.interval_seconds is None,
            r.default_ttl is None,
            r.public_ip_url is None,
    {
        ConfigFile {
            powerdns: PowerDnsConfigFile::default(),
            records: Vec::new(),
            interval_seconds: None,
            default_ttl: None,
            public_ip_url: None,
        }
    }
}

/// The default polling interval, in seconds.
pub fn default_interval_seconds() -> (r: u64)
    ensures
        r == 300,
{
    300
}

/// The default TTL of a record, in seconds.
pub fn default_ttl() -> (r: u32)
    ensures
        r == 300,
{
    300
}

/// The default URL of the public-ip service.
pub fn default_public_ip_url() -> (r: String)
    ensures
        r@ == "https://api4.ipify.org?format=json"@,
{
    String::from_str("https://api4.ipify.org?format=json")
}

/// The default PowerDNS server id.
pub fn default_server_id() -> (r: String)
    ensures
        r@ == "localhost"@,
{
    String::from_str("localhost")
}

/// A DNS name made absolute: trimmed, and ending in a dot.
pub open spec fn normalized_dns_name(value: Seq<char>) -> Seq<char> {
    let v = trimmed(value);
    if ends_with_char(v, '.') {
        v
    } else {
        v + seq!['.']
    }
}

/// A record name made absolute: trimmed and kept as it is when it ends in a
/// dot; given a final dot when it holds a dot elsewhere; otherwise taken as a
/// label inside the zone, whose absolute name follows it.
pub open spec fn normalized_record_name(name: Seq<char>, zone: Seq<char>) -> Seq<char> {
    let n = trimmed(name);
    if ends_with_char(n, '.') {
        n
    } else if n.contains('.') {
        n + seq!['.']
    } else {
        n + seq!['.'] + normalized_dns_name(zone)
    }
}

/// Makes a DNS name absolute: trims white space and appends a dot unless the
/// name already ends in one.
pub fn normalize_dns_name(value: &str) -> (r: String)
    ensures
        r@ == normalized_dns_name(value@),
{
    proof {
        reveal_strlit(".");
    }
    let value = trim(value);
    let mut out = String::from_str(value);
    if !ends_with(value, '.') {
        out.append(".");
    }
    out
}

/// Makes a record name absolute, relative to `zone` where the name is a
/// single label.
pub fn normalize_record_name(name: &str, zone: &str) -> (r: String)
    ensures
        r@ == normalized_record_name(name@, zone@),
{
    proof {
        reveal_strlit(".");
    }
    let name = trim(name);
    let mut out = String::from_str(name);
    if ends_with(name, '.') {
    } else if contains_char(name, '.') {
        out.append(".");
    } else {
        let zone = normalize_dns_name(zone);
        out.append(".");
        out.append(zone.as_str());
    }
    out
}

/// Why a record is not acceptable, if it is not.
pub open spec fn record_error(r: RecordView) -> Option<ConfigError> {
    if is_blank(r.zone) {
        Some(ConfigError::BlankRecordZone)
    } else if is_blank(r.name) {
        Some(ConfigError::BlankRecordName)
    } else {
        None
    }
}

/// Why the first unacceptable record of `records` is not acceptable, if any
/// record is not.
pub open spec fn first_record_error(records: Seq<RecordView>) -> Option<ConfigError>
    decreases records.len(),
{
    if records.len() == 0 {
        None
    } else if record_error(records[0]) is Some {
        record_error(records[0])
    } else {
        first_record_error(records.drop_first())
    }
}

/// Why a configuration is not acceptable, if it is not; the checks are made
/// in this order.
pub open spec fn config_error(c: ConfigView) -> Option<ConfigError> {
    if c.interval_seconds == 0 {
        Some(ConfigError::ZeroInterval)
    } else if c.records.len() == 0 {
        Some(ConfigError::NoRecords)
    } else if is_blank(c.api_url) {
        Some(ConfigError::BlankApiUrl)
    } else if is_blank(c.api_key) {
        Some(ConfigError::BlankApiKey)
    } else {
        first_record_error(c.records)
    }
}

/// A check's outcome, given the error it finds if any.
pub open spec fn check_result(e: Option<ConfigError>) -> Result<(), ConfigError> {
    match e {
        Some(e) => Err(e),
        None => Ok(()),
    }
}

impl RecordTarget {
    /// Checks that neither the zone nor the name is blank.
    pub fn validate(&self) -> (r: Result<(), ConfigError>)
        ensures
            r == check_result(record_error(self@)),
    {
        if is_blank_str(self.zone.as_str()) {
            return Err(ConfigError::BlankRecordZone);
        }
        if is_blank_str(self.name.as_str()) {
            return Err(ConfigError::BlankRecordName);
        }
        Ok(())
    }

    /// The absolute name of the record's zone.
    pub fn normalized_zone(&self) -> (r: String)
        ensures
            r@ == normalized_dns_name(self.zone@),
    {
        normalize_dns_name(self.zone.as_str())
    }

    /// The absolute name of the record.
    pub fn normalized_name(&self) -> (r: String)
        ensures
            r@ == normalized_record_name(self.name@, self.zone@),
    {
        normalize_record_name(self.name.as_str(), self.zone.as_str())
    }

    /// The record's own TTL, or `default_ttl` where it has none.
    pub fn ttl(&self, default_ttl: u32) -> (r: u32)
        ensures
            r == match self.ttl {
                Some(t) => t,
                None => default_ttl,
            },
    {
        match self.ttl {
            Some(t) => t,
            None => default_ttl,
        }
    }
}

impl AppConfig {
    /// Checks the interval, that there are records, that the API URL and key
    /// are not blank, and then each record in turn.
    pub fn validate(&self) -> (r: Result<(), ConfigError>)
        ensures
            r == check_result(config_error(self@)),
    {
        if self.interval_seconds == 0 {
            return Err(ConfigError::ZeroInterval);
        }
        if self.records.len() == 0 {
            return Err(ConfigError::NoRecords);
        }
        if is_blank_str(self.powerdns.api_url.as_str()) {
            return Err(ConfigError::BlankApiUrl);
        }
        if is_blank_str(self.powerdns.api_key.as_str()) {
            return Err(ConfigError::BlankApiKey);
        }
        let ghost all = records_view(self.records@);
        assert(config_error(self@) == first_record_error(all));
        let n: usize = self.records.len();
        let mut i: usize = 0;
        assert(all.subrange(0, n as int) =~= all);
        while i < n
            invariant
                n == self.records@.len(),
                all == records_view(self.records@),
                config_error(self@) == first_record_error(all),
                i <= n,
                first_record_error(all) == first_record_error(all.subrange(i as int, n as int)),
            decreases n - i,
        {
            assert(all.subrange(i as int, n as int)[0] == self.records@[i as int]@);
            match self.records[i].validate() {
                Ok(()) => {},
                Err(e) => return Err(e),
            }
            assert(all.subrange(i as int, n as int).drop_first() =~= all.subrange(
                i + 1,
                n as int,
            ));
            i = i + 1;
        }
        Ok(())
    }
}

/// A text value: the environment's when the variable is set, else the
/// file's, else the default; a required value (no default) that is set
/// nowhere is missing.
pub open spec fn resolved_text(
    setting: Setting,
    env: EnvValue,
    file: Option<Seq<char>>,
    default: Option<Seq<char>>,
) -> Result<Seq<char>, ConfigError> {
    match env {
        EnvValue::Present(v) => Ok(v@),
        EnvValue::NotUnicode(d) => Err(ConfigError::Unreadable(setting, d)),
        EnvValue::NotPresent => match file {
            Some(f) => Ok(f),
            None => match default {
                Some(d) => Ok(d),
                None => Err(ConfigError::MissingValue(setting)),
            },
        },
    }
}

/// A number: the environment's, read as a decimal number of at most `max`,
/// when the variable is set, else the file's, else the default.
pub open spec fn resolved_number(
    setting: Setting,
    env: EnvValue,
    file: Option<u64>,
    default: u64,
    max: u64,
) -> Result<u64, ConfigError> {
    match env {
        EnvValue::Present(v) => match decimal_number(v@, max as int) {
            Ok(n) => Ok(n as u64),
            Err(e) => Err(ConfigError::Unparsable(setting, e)),
        },
        EnvValue::NotUnicode(d) => Err(ConfigError::Unreadable(setting, d)),
        EnvValue::NotPresent => Ok(
            match file {
                Some(f) => f,
                None => default,
            },
        ),
    }
}

/// The records that the environment sets, if it sets any.
pub open spec fn resolved_env_records(env: RecordsEnv) -> Result<
    Option<Seq<RecordView>>,
    ConfigError,
> {
    match env {
        RecordsEnv::Parsed(v) => Ok(Some(records_view(v@))),
        RecordsEnv::Unparsable(d) => Err(ConfigError::RecordsUnparsable(d)),
        RecordsEnv::NotPresent => Ok(None),
        RecordsEnv::NotUnicode(d) => Err(ConfigError::Unreadable(Setting::Records, d)),
    }
}

/// The text of an optional string.
pub open spec fn opt_text(s: Option<String>) -> Option<Seq<char>> {
    match s {
        Some(s) => Some(s@),
        None => None,
    }
}

/// The text of a string result.
pub open spec fn text_result(r: Result<String, ConfigError>) -> Result<Seq<char>, ConfigError> {
    match r {
        Ok(s) => Ok(s@),
        Err(e) => Err(e),
    }
}

/// The configuration that the file and the environment give, or the first
/// error: each value is resolved in the order below, and the result is then
/// checked as `config_error` says.
pub open spec fn loaded_config(file: ConfigFile, env: EnvSnapshot) -> Result<
    ConfigView,
    ConfigError,
> {
    let api_url = resolved_text(Setting::ApiUrl, env.api_url, opt_text(file.powerdns.api_url), None);
    let api_key = resolved_text(Setting::ApiKey, env.api_key, opt_text(file.powerdns.api_key), None);
    let server_id = resolved_text(
        Setting::ServerId,
        env.server_id,
        opt_text(file.powerdns.server_id),
        Some("localhost"@),
    );
    let interval = resolved_number(
        Setting::IntervalSeconds,
        env.interval_seconds,
        file.interval_seconds,
        300,
        u64::MAX,
    );
    let ttl = resolved_number(
        Setting::DefaultTtl,
        env.default_ttl,
        match file.default_ttl {
            Some(t) => Some(t as u64),
            None => None,
        },
        300,
        u32::MAX as u64,
    );
    let public_ip_url = resolved_text(
        Setting::PublicIpUrl,
        env.public_ip_url,
        opt_text(file.public_ip_url),
        Some("https://api4.ipify.org?format=json"@),
    );
    let records = resolved_env_records(env.records);
    if api_url is Err {
        Err(api_url->Err_0)
    } else if api_key is Err {
        Err(api_key->Err_0)
    } else if server_id is Err {
        Err(server_id->Err_0)
    } else if interval is Err {
        Err(interval->Err_0)
    } else if ttl is Err {
        Err(ttl->Err_0)
    } else if public_ip_url is Err {
        Err(public_ip_url->Err_0)
    } else if records is Err {
        Err(records->Err_0)
    } else {
        let c = ConfigView {
            api_url: api_url->Ok_0,
            api_key: api_key->Ok_0,
            server_id: server_id->Ok_0,
            records: match records->Ok_0 {
                Some(r) => r,
                None => records_view(file.records@),
            },
            interval_seconds: interval->Ok_0,
            default_ttl: ttl->Ok_0 as u32,
            public_ip_url: public_ip_url->Ok_0,
        };
        match config_error(c) {
            Some(e) => Err(e),
            None => Ok(c),
        }
    }
}

/// The view of a loaded configuration, or its error.
pub open spec fn config_result(r: Result<AppConfig, ConfigError>) -> Result<ConfigView, ConfigError> {
    match r {
        Ok(c) => Ok(c@),
        Err(e) => Err(e),
    }
}

/// A required text value: the environment's, else the file's.
pub fn env_or_file_required_string(
    setting: Setting,
    env: EnvValue,
    file_value: Option<String>,
) -> (r: Result<String, ConfigError>)
    ensures
        text_result(r) == resolved_text(setting, env, opt_text(file_value), None),
{
    match env {
        EnvValue::Present(value) => Ok(value),
        EnvValue::NotPresent => match file_value {
            Some(v) => Ok(v),
            None => Err(ConfigError::MissingValue(setting)),
        },
        EnvValue::NotUnicode(detail) => Err(ConfigError::Unreadable(setting, detail)),
    }
}

/// A text value: the environment's, else the file's, else `default_value`.
pub fn env_or_file_string_with_default(
    setting: Setting,
    env: EnvValue,
    file_value: Option<String>,
    default_value: String,
) -> (r: Result<String, ConfigError>)
    ensures
        text_result(r) == resolved_text(setting, env, opt_text(file_value), Some(default_value@)),
{
    match env {
        EnvValue::Present(value) => Ok(value),
        EnvValue::NotPresent => match file_value {
            Some(v) => Ok(v),
            None => Ok(default_value),
        },
        EnvValue::NotUnicode(detail) => Err(ConfigError::Unreadable(setting, detail)),
    }
}

/// A number of at most `max`: the environment's, read as a decimal number,
/// else the file's, else `default_value`.
pub fn env_or_file_number_with_default(
    setting: Setting,
    env: EnvValue,
    file_value: Option<u64>,
    default_value: u64,
    max: u64,
) -> (r: Result<u64, ConfigError>)
    requires
        file_value matches Some(f) ==> f <= max,
        default_value <= max,
    ensures
        r == resolved_number(setting, env, file_value, default_value, max),
        r matches Ok(v) ==> v <= max,
{
    match env {
        EnvValue::Present(value) => match parse_decimal(value.as_str(), max) {
            Ok(n) => Ok(n),
            Err(e) => Err(ConfigError::Unparsable(setting, e)),
        },
        EnvValue::NotPresent => match file_value {
            Some(v) => Ok(v),
            None => Ok(default_value),
        },
        EnvValue::NotUnicode(detail) => Err(ConfigError::Unreadable(setting, detail)),
    }
}

/// The records that the environment sets, if it sets any.
pub fn env_records(env: RecordsEnv) -> (r: Result<Option<Vec<RecordTarget>>, ConfigError>)
    ensures
        match env {
            RecordsEnv::Parsed(v) => r == Ok::<Option<Vec<RecordTarget>>, ConfigError>(Some(v)),
            RecordsEnv::Unparsable(d) => r == Err::<Option<Vec<RecordTarget>>, ConfigError>(
                ConfigError::RecordsUnparsable(d),
            ),
            RecordsEnv::NotPresent => r == Ok::<Option<Vec<RecordTarget>>, ConfigError>(None),
            RecordsEnv::NotUnicode(d) => r == Err::<Option<Vec<RecordTarget>>, ConfigError>(
                ConfigError::Unreadable(Setting::Records, d),
            ),
        },
{
    match env {
        RecordsEnv::Parsed(records) => Ok(Some(records)),
        RecordsEnv::Unparsable(detail) => Err(ConfigError::RecordsUnparsable(detail)),
        RecordsEnv::NotPresent => Ok(None),
        RecordsEnv::NotUnicode(detail) => Err(ConfigError::Unreadable(Setting::Records, detail)),
    }
}

impl AppConfig {
    /// Builds the configuration from the file's contents (empty where there
    /// is no file) and the environment, which takes precedence, and checks it.
    pub fn load(file: ConfigFile, env: EnvSnapshot) -> (r: Result<AppConfig, ConfigError>)
        ensures
            config_result(r) == loaded_config(file, env),
    {
        let ConfigFile { powerdns, records: file_records, interval_seconds, default_ttl: file_ttl,
        public_ip_url } = file;
        let api_url = match env_or_file_required_string(
            Setting::ApiUrl,
            env.api_url,
            powerdns.api_url,
        ) {
            Ok(v) => v,
            Err(e) => return Err(e),
        };
        let api_key = match env_or_file_required_string(
            Setting::ApiKey,
            env.api_key,
            powerdns.api_key,
        ) {
            Ok(v) => v,
            Err(e) => return Err(e),
        };
        let server_id = match env_or_file_string_with_default(
            Setting::ServerId,
            env.server_id,
            powerdns.server_id,
            default_server_id(),
        ) {
            Ok(v) => v,
            Err(e) => return Err(e),
        };
        let interval_seconds: u64 = match env_or_file_number_with_default(
            Setting::IntervalSeconds,
            env.interval_seconds,
            interval_seconds,
            default_interval_seconds(),
            u64::MAX,
        ) {
            Ok(v) => v,
            Err(e) => return Err(e),
        };
        let file_ttl: Option<u64> = match file_ttl {
            Some(t) => Some(t as u64),
            None => None,
        };
        let ttl: u64 = match env_or_file_number_with_default(
            Setting::DefaultTtl,
            env.default_ttl,
            file_ttl,
            default_ttl() as u64,
            u32::MAX as u64,
        ) {
            Ok(v) => v,
            Err(e) => return Err(e),
        };
        let public_ip_url = match env_or_file_string_with_default(
            Setting::PublicIpUrl,
            env.public_ip_url,
            public_ip_url,
            default_public_ip_url(),
        ) {
            Ok(v) => v,
            Err(e) => return Err(e),
        };
        let records = match env_records(env.records) {
            Ok(Some(r)) => r,
            Ok(None) => file_records,
            Err(e) => return Err(e),
        };
        let config = AppConfig {
            powerdns: PowerDnsConfig { api_url, api_key, server_id },
            records,
            interval_seconds,
            default_ttl: ttl as u32,
            public_ip_url,
        };
        match config.validate() {
            Ok(()) => Ok(config),
            Err(e) => Err(e),
        }
    }
}

/// The dot is not white space.
proof fn lemma_dot_is_not_white_space()
    ensures
        !crate::text::is_white_space('.'),
{
    assert('.' as u32 == 46);
}

/// A normalised DNS name is absolute: it ends in a dot.
pub proof fn law_normalized_dns_name_is_absolute(value: Seq<char>)
    ensures
        ends_with_char(normalized_dns_name(value), '.'),
{
}

/// A normalised DNS name has no white space at either end.
proof fn lemma_normalized_dns_name_untrimmable(value: Seq<char>)
    ensures
        trimmed(normalized_dns_name(value)) == normalized_dns_name(value),
        normalized_dns_name(value).len() > 0,
        !crate::text::is_white_space(normalized_dns_name(value)[0]),
{
    lemma_dot_is_not_white_space();
    lemma_trimmed_ends(value);
    let r = normalized_dns_name(value);
    if trimmed(value).len() > 0 {
        assert(r[0] == trimmed(value)[0]);
    }
    lemma_trim_of_untrimmable(r);
}

/// Normalising a DNS name twice is normalising it once.
pub proof fn law_normalized_dns_name_idempotent(value: Seq<char>)
    ensures
        normalized_dns_name(normalized_dns_name(value)) == normalized_dns_name(value),
{
    lemma_normalized_dns_name_untrimmable(value);
}

/// A normalised record name is absolute: it ends in a dot.
pub proof fn law_normalized_record_name_is_absolute(name: Seq<char>, zone: Seq<char>)
    ensures
        ends_with_char(normalized_record_name(name, zone), '.'),
{
    let n = trimmed(name);
    if !ends_with_char(n, '.') && !n.contains('.') {
        let z = normalized_dns_name(zone);
        assert((n + seq!['.'] + z).last() == z.last());
    }
}

/// Normalising a record name again, in any zone, changes nothing.
pub proof fn law_normalized_record_name_idempotent(name: Seq<char>, zone: Seq<char>, other_zone: Seq<char>)
    ensures
        normalized_record_name(normalized_record_name(name, zone), other_zone)
            == normalized_record_name(name, zone),
{
    lemma_dot_is_not_white_space();
    lemma_trimmed_ends(name);
    law_normalized_record_name_is_absolute(name, zone);
    let n = trimmed(name);
    let r = normalized_record_name(name, zone);
    if ends_with_char(n, '.') {
    } else if n.contains('.') {
        assert(r[0] == n[0]);
    } else {
        let z = normalized_dns_name(zone);
        lemma_normalized_dns_name_untrimmable(zone);
        if n.len() > 0 {
            assert(r[0] == n[0]);
        } else {
            assert(r[0] == '.');
        }
        assert(r.last() == z.last());
    }
    lemma_trim_of_untrimmable(r);
}

/// A record name that holds a dot does not depend on the zone; a single label
/// is followed by a dot and the zone's absolute name.
pub proof fn law_record_name_and_zone(name: Seq<char>, zone: Seq<char>, other_zone: Seq<char>)
    ensures
        trimmed(name).contains('.') ==> normalized_record_name(name, zone)
            == normalized_record_name(name, other_zone),
        !trimmed(name).contains('.') ==> normalized_record_name(name, zone) == trimmed(name)
            + seq!['.'] + normalized_dns_name(zone),
{
    let n = trimmed(name);
    if ends_with_char(n, '.') {
        assert(n.contains('.')) by {
            assert(n[n.len() - 1] == '.');
        }
    }
}

/// A configuration that loads passes the checks of `validate`.
pub proof fn law_loaded_config_is_valid(file: ConfigFile, env: EnvSnapshot)
    ensures
        loaded_config(file, env) matches Ok(c) ==> config_error(c) is None,
{
}

/// What the environment sets takes precedence over the configuration file,
/// and what the file sets takes precedence over the defaults.
pub proof fn law_environment_overrides_file(file: ConfigFile, env: EnvSnapshot)
    ensures
        loaded_config(file, env) matches Ok(c) ==> {
            &&& c.api_url == match env.api_url {
                EnvValue::Present(v) => v@,
                _ => file.powerdns.api_url->Some_0@,
            }
            &&& c.api_key == match env.api_key {
                EnvValue::Present(v) => v@,
                _ => file.powerdns.api_key->Some_0@,
            }
            &&& c.server_id == match env.server_id {
                EnvValue::Present(v) => v@,
                _ => match file.powerdns.server_id {
                    Some(f) => f@,
                    None => "localhost"@,
                },
            }
            &&& c.interval_seconds == match env.interval_seconds {
                EnvValue::Present(v) => decimal_number(v@, u64::MAX as int)->Ok_0 as u64,
                _ => match file.interval_seconds {
                    Some(f) => f,
                    None => 300,
                },
            }
            &&& c.default_ttl == match env.default_ttl {
                EnvValue::Present(v) => decimal_number(v@, u32::MAX as int)->Ok_0 as u32,
                _ => match file.default_ttl {
                    Some(f) => f,
                    None => 300,
                },
            }
            &&& c.public_ip_url == match env.public_ip_url {
                EnvValue::Present(v) => v@,
                _ => match file.public_ip_url {
                    Some(f) => f@,
                    None => "https://api4.ipify.org?format=json"@,
                },
            }
            &&& c.records == match env.records {
                RecordsEnv::Parsed(v) => records_view(v@),
                _ => records_view(file.records@),
            }
        },
{
    if let EnvValue::Present(v) = env.interval_seconds {
        crate::number::lemma_decimal_number_bounds(v@, u64::MAX as int);
    }
    if let EnvValue::Present(v) = env.default_ttl {
        crate::number::lemma_decimal_number_bounds(v@, u32::MAX as int);
    }
}

/// With the API URL, the API key and acceptable records set in the
/// environment, an empty configuration file (as when there is none) loads,
/// and the other values take their defaults.
pub proof fn law_environment_alone_suffices(file: ConfigFile, env: EnvSnapshot)
    requires
        file.powerdns.api_url is None,
        file.powerdns.api_key is None,
        file.powerdns.server_id is None,
        file.interval_seconds is None,
        file.default_ttl is None,
        file.public_ip_url is None,
        env.api_url matches EnvValue::Present(u) && !is_blank(u@),
        env.api_key matches EnvValue::Present(k) && !is_blank(k@),
        env.server_id is NotPresent,
        env.interval_seconds is NotPresent,
        env.default_ttl is NotPresent,
        env.public_ip_url is NotPresent,
        env.records matches RecordsEnv::Parsed(rs) && rs@.len() > 0 && forall|i: int|
            0 <= i < rs@.len() ==> !is_blank(#[trigger] rs@[i].zone@) && !is_blank(
                rs@[i].name@,
            ),
    ensures
        loaded_config(file, env) matches Ok(c) && c.api_url == env.api_url->Present_0@
            && c.api_key == env.api_key->Present_0@ && c.server_id == "localhost"@
            && c.interval_seconds == 300 && c.default_ttl == 300 && c.public_ip_url
            == "https://api4.ipify.org?format=json"@ && c.records == records_view(
            env.records->Parsed_0@,
        ),
{
    lemma_records_accepted(env.records->Parsed_0@);
}

/// A record is rejected exactly when its zone or its name is blank, and the
/// zone is checked first.
pub proof fn law_record_acceptance(r: RecordView)
    ensures
        record_error(r) is None <==> !is_blank(r.zone) && !is_blank(r.name),
        is_blank(r.zone) ==> record_error(r) == Some(ConfigError::BlankRecordZone),
        !is_blank(r.zone) && is_blank(r.name) ==> record_error(r) == Some(
            ConfigError::BlankRecordName,
        ),
{
}

/// A list of records passes exactly when no record has a blank zone or name;
/// what is reported is one of the two blank-record errors.
pub proof fn law_records_acceptance(records: Seq<RecordView>)
    ensures
        first_record_error(records) is None <==> forall|i: int|
            0 <= i < records.len() ==> !is_blank(#[trigger] records[i].zone) && !is_blank(
                records[i].name,
            ),
        first_record_error(records) matches Some(e) ==> (e is BlankRecordZone
            || e is BlankRecordName),
    decreases records.len(),
{
    if records.len() > 0 {
        let rest = records.drop_first();
        law_records_acceptance(rest);
        if first_record_error(records) is None {
            assert(record_error(records[0]) is None);
            assert(first_record_error(rest) is None);
            assert(forall|i: int|
                0 <= i < rest.len() ==> !is_blank(#[trigger] rest[i].zone) && !is_blank(
                    rest[i].name,
                ));
            assert forall|i: int| 0 <= i < records.len() implies !is_blank(
                #[trigger] records[i].zone,
            ) && !is_blank(records[i].name) by {
                if i > 0 {
                    assert(records[i] == rest[i - 1]);
                    assert(!is_blank(rest[i - 1].zone) && !is_blank(rest[i - 1].name));
                }
            }
        } else if record_error(records[0]) is None {
            if forall|i: int|
                0 <= i < records.len() ==> !is_blank(#[trigger] records[i].zone) && !is_blank(
                    records[i].name,
                ) {
                assert forall|i: int| 0 <= i < rest.len() implies !is_blank(
                    #[trigger] rest[i].zone,
                ) && !is_blank(rest[i].name) by {
                    assert(rest[i] == records[i + 1]);
                    assert(!is_blank(records[i + 1].zone) && !is_blank(records[i + 1].name));
                }
            }
        } else {
            assert(!(!is_blank(records[0].zone) && !is_blank(records[0].name)));
        }
    }
}

/// Records with no blank zone or name pass the record checks.
proof fn lemma_records_accepted(records: Seq<RecordTarget>)
    requires
        forall|i: int|
            0 <= i < records.len() ==> !is_blank(#[trigger] records[i].zone@) && !is_blank(
                records[i].name@,
            ),
    ensures
        first_record_error(records_view(records)) is None,
{
    let v = records_view(records);
    assert forall|i: int| 0 <= i < v.len() implies !is_blank(#[trigger] v[i].zone) && !is_blank(
        v[i].name,
    ) by {
        assert(v[i] == records[i]@);
    }
    law_records_acceptance(v);
}

/// A configuration passes the checks exactly when its interval is positive,
/// it has records, its API URL and key are not blank and no record has a
/// blank zone or name.
pub proof fn law_config_acceptance(c: ConfigView)
    ensures
        config_error(c) is None <==> {
            &&& c.interval_seconds > 0
            &&& c.records.len() > 0
            &&& !is_blank(c.api_url)
            &&& !is_blank(c.api_key)
            &&& forall|i: int|
                0 <= i < c.records.len() ==> !is_blank(#[trigger] c.records[i].zone) && !is_blank(
                    c.records[i].name,
                )
        },
        c.interval_seconds == 0 ==> config_error(c) == Some(ConfigError::ZeroInterval),
        c.interval_seconds > 0 && c.records.len() == 0 ==> config_error(c) == Some(
            ConfigError::NoRecords,
        ),
        c.interval_seconds > 0 && c.records.len() > 0 && is_blank(c.api_url) ==> config_error(c)
            == Some(ConfigError::BlankApiUrl),
        c.interval_seconds > 0 && c.records.len() > 0 && !is_blank(c.api_url) && is_blank(
            c.api_key,
        ) ==> config_error(c) == Some(ConfigError::BlankApiKey),
        c.interval_seconds > 0 && c.records.len() > 0 && !is_blank(c.api_url) && !is_blank(
            c.api_key,
        ) ==> config_error(c) is None || config_error(c) == Some(ConfigError::BlankRecordZone)
            || config_error(c) == Some(ConfigError::BlankRecordName),
{
    law_records_acceptance(c.records);
}

/// A value is reported missing only when it is required (the API URL or
/// key) and set neither in the environment nor in the file.
pub proof fn law_missing_only_when_unset(file: ConfigFile, env: EnvSnapshot)
    ensures
        loaded_config(file, env) matches Err(ConfigError::MissingValue(s)) ==> {
            ||| s == Setting::ApiUrl && env.api_url is NotPresent && file.powerdns.api_url is None
            ||| s == Setting::ApiKey && env.api_key is NotPresent && file.powerdns.api_key is None
        },
{
    law_records_acceptance(records_view(file.records@));
    if let RecordsEnv::Parsed(v) = env.records {
        law_records_acceptance(records_view(v@));
    }
}

/// With no environment variable set, a file that sets a non-blank API URL
/// and key and records with non-blank zones and names (and no zero interval)
/// loads, with the file's values.
pub proof fn law_file_alone_suffices(file: ConfigFile, env: EnvSnapshot)
    requires
        env.api_url is NotPresent,
        env.api_key is NotPresent,
        env.server_id is NotPresent,
        env.interval_seconds is NotPresent,
        env.default_ttl is NotPresent,
        env.public_ip_url is NotPresent,
        env.records is NotPresent,
        file.powerdns.api_url matches Some(u) && !is_blank(u@),
        file.powerdns.api_key matches Some(k) && !is_blank(k@),
        file.interval_seconds != Some(0u64),
        file.records@.len() > 0,
        forall|i: int|
            0 <= i < file.records@.len() ==> !is_blank(#[trigger] file.records@[i].zone@)
                && !is_blank(file.records@[i].name@),
    ensures
        loaded_config(file, env) matches Ok(c) && c.api_url == file.powerdns.api_url->Some_0@
            && c.api_key == file.powerdns.api_key->Some_0@ && c.records == records_view(
            file.records@,
        ) && c.default_ttl == match file.default_ttl {
            Some(t) => t,
            None => 300u32,
        },
{
    lemma_records_accepted(file.records@);
}

/// Whether a required text value resolves to something non-blank.
pub open spec fn resolves_non_blank(env: EnvValue, file: Option<String>) -> bool {
    match env {
        EnvValue::Present(v) => !is_blank(v@),
        EnvValue::NotPresent => file matches Some(f) && !is_blank(f@),
        EnvValue::NotUnicode(_) => false,
    }
}

/// Records with at least one entry and no blank zone or name.
pub open spec fn acceptable_records(records: Seq<RecordTarget>) -> bool {
    &&& records.len() > 0
    &&& forall|i: int|
        0 <= i < records.len() ==> !is_blank(#[trigger] records[i].zone@) && !is_blank(
            records[i].name@,
        )
}

/// Loading succeeds whenever every value resolves and the result is
/// acceptable: the API URL and key are set somewhere and not blank, no
/// variable is unreadable, numbers set in the environment read as numbers in
/// range, the interval is not zero, and the records that apply are acceptable.
pub proof fn law_loads_when_everything_resolves(file: ConfigFile, env: EnvSnapshot)
    requires
        resolves_non_blank(env.api_url, file.powerdns.api_url),
        resolves_non_blank(env.api_key, file.powerdns.api_key),
        !(env.server_id is NotUnicode),
        !(env.public_ip_url is NotUnicode),
        match env.interval_seconds {
            EnvValue::Present(v) => decimal_number(v@, u64::MAX as int) matches Ok(n) && n > 0,
            EnvValue::NotPresent => file.interval_seconds != Some(0u64),
            EnvValue::NotUnicode(_) => false,
        },
        match env.default_ttl {
            EnvValue::Present(v) => decimal_number(v@, u32::MAX as int) is Ok,
            EnvValue::NotPresent => true,
            EnvValue::NotUnicode(_) => false,
        },
        match env.records {
            RecordsEnv::Parsed(rs) => acceptable_records(rs@),
            RecordsEnv::NotPresent => acceptable_records(file.records@),
            _ => false,
        },
    ensures
        loaded_config(file, env) is Ok,
{
    if let EnvValue::Present(v) = env.interval_seconds {
        crate::number::lemma_decimal_number_bounds(v@, u64::MAX as int);
    }
    match env.records {
        RecordsEnv::Parsed(rs) => lemma_records_accepted(rs@),
        _ => lemma_records_accepted(file.records@),
    }
}

/// Normalising a DNS name trims it and adds at most one final dot: the
/// trimmed name is a prefix of the result, the result ends in a dot, and a
/// trimmed name that already ends in a dot is kept as it is.
pub proof fn law_normalized_dns_name_shape(value: Seq<char>)
    ensures
        normalized_dns_name(value).subrange(0, trimmed(value).len() as int) == trimmed(value),
        trimmed(value).len() <= normalized_dns_name(value).len() <= trimmed(value).len() + 1,
        normalized_dns_name(value).len() > 0 && normalized_dns_name(value).last() == '.',
        (trimmed(value).len() > 0 && trimmed(value).last() == '.') ==> normalized_dns_name(value)
            == trimmed(value),
{
    let t = trimmed(value);
    let n = normalized_dns_name(value);
    assert(n.subrange(0, t.len() as int) =~= t);
}

/// Normalising a record name keeps the trimmed name as a prefix; an absolute
/// name is kept, a dotted one gets one final dot, and a single label is
/// followed by a dot and the zone's normalised name.
pub proof fn law_normalized_record_name_shape(name: Seq<char>, zone: Seq<char>)
    ensures
        normalized_record_name(name, zone).subrange(0, trimmed(name).len() as int) == trimmed(
            name,
        ),
        (trimmed(name).len() > 0 && trimmed(name).last() == '.') ==> normalized_record_name(
            name,
            zone,
        ) == trimmed(name),
        !(trimmed(name).len() > 0 && trimmed(name).last() == '.') && trimmed(name).contains('.')
            ==> normalized_record_name(name, zone) == trimmed(name).push('.'),
        !trimmed(name).contains('.') ==> normalized_record_name(name, zone).len() == trimmed(
            name,
        ).len() + 1 + normalized_dns_name(zone).len() && normalized_record_name(name, zone)[trimmed(
            name,
        ).len() as int] == '.' && normalized_record_name(name, zone).subrange(
            trimmed(name).len() + 1int,
            normalized_record_name(name, zone).len() as int,
        ) == normalized_dns_name(zone),
{
    let t = trimmed(name);
    let n = normalized_record_name(name, zone);
    assert(n.subrange(0, t.len() as int) =~= t);
    if !t.contains('.') {
        assert(n.subrange(t.len() + 1int, n.len() as int) =~= normalized_dns_name(zone));
    }
    if !(t.len() > 0 && t.last() == '.') && t.contains('.') {
        assert(n =~= t.push('.'));
    }
}

} // verus!
