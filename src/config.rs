//! Server configuration: finding the file, and checking what it holds.
use vstd::prelude::*;

verus! {

/// What the configuration file holds, before it is checked.
#[derive(Clone, Debug)]
pub struct RawConfig {
    pub bind_address: Option<String>,
    pub bind_port: Option<String>,
    pub domain: String,
    pub macaroon_secret_key: String,
    pub postgres_url: String,
}

/// Server configuration provided by the user.
#[derive(Clone, Debug)]
pub struct Config {
    /// The network address where the server listens. Defaults to 127.0.0.1.
    pub bind_address: String,
    /// The network port where the server listens. Defaults to 3000.
    pub bind_port: String,
    /// The DNS name where clients reach the server; the host part of ids.
    pub domain: String,
    /// The 32-byte key that access tokens are signed with.
    pub macaroon_secret_key: Vec<u8>,
    /// The connection string of the database.
    pub postgres_url: String,
}

/// Why no configuration could be had.
#[derive(Clone, Copy, Debug, PartialEq, Eq, Structural)]
pub enum ConfigError {
    CustomFileNotFound,
    UnknownFormat,
    NoConfigFile,
    SecretNotBase64,
    SecretWrongLength,
    Unparsable,
}

/// The formats a configuration file may be written in.
#[derive(Clone, Copy, Debug, PartialEq, Eq, Structural)]
pub enum ConfigFormat {
    Json,
    Toml,
    Yaml,
}

/// Which file to read, and how.
#[derive(Clone, Debug)]
pub struct ConfigSource {
    pub path: String,
    pub format: ConfigFormat,
}

/// What is on disk: whether the named custom file and each default file exist.
#[derive(Clone, Copy, Debug)]
pub struct FileProbe {
    pub custom: bool,
    pub json: bool,
    pub toml: bool,
    pub yaml: bool,
    pub yml: bool,
}

impl ConfigError {
    pub open spec fn message_spec(&self) -> Seq<char> {
        match self {
            ConfigError::CustomFileNotFound => "User-specified configuration file was not found."@,
            ConfigError::UnknownFormat => "Could not recognize custom configuration file."@,
            ConfigError::NoConfigFile => "No configuration file was found."@,
            ConfigError::SecretNotBase64 => "macaroon_secret_key must be valid Base64."@,
            ConfigError::SecretWrongLength => "macaroon_secret_key must be 32 bytes."@,
            ConfigError::Unparsable => "The configuration file could not be parsed."@,
        }
    }

    /// The message shown to the user.
    pub fn message(&self) -> (r: &'static str)
        ensures
            r@ == self.message_spec(),
    {
        match self {
            ConfigError::CustomFileNotFound => "User-specified configuration file was not found.",
            ConfigError::UnknownFormat => "Could not recognize custom configuration file.",
            ConfigError::NoConfigFile => "No configuration file was found.",
            ConfigError::SecretNotBase64 => "macaroon_secret_key must be valid Base64.",
            ConfigError::SecretWrongLength => "macaroon_secret_key must be 32 bytes.",
            ConfigError::Unparsable => "The configuration file could not be parsed.",
        }
    }
}

/// The bytes that standard base64 text decodes to, or none where it is not
/// valid base64.
pub uninterp spec fn base64_decoded(text: Seq<char>) -> Option<Seq<u8>>;

/// Relies on `base64::decode` (standard alphabet, padded).
#[verifier::external_body]
fn decode_base64(text: &String) -> (r: Option<Vec<u8>>)
    ensures
        match r {
            Some(bytes) => base64_decoded(text@) == Some(bytes@),
            None => base64_decoded(text@) is None,
        },
{
    base64::decode(text).ok()
}

/// Relies on `base64::encode` (standard alphabet, padded): the text that
/// `base64::decode` reads back as the same bytes.
#[verifier::external_body]
fn encode_base64(bytes: &Vec<u8>) -> (r: String)
    ensures
        base64_decoded(r@) == Some(bytes@),
{
    base64::encode(bytes)
}

/// Relies on `rand::random` for a `[u8; 32]`, drawn from the thread-local
/// generator. Nothing is promised of the bytes but their number.
#[verifier::external_body]
fn random_key_bytes() -> (r: Vec<u8>)
    ensures
        r@.len() == 32,
{
    rand::random::<[u8; 32]>().to_vec()
}

/// A fresh random secret key, written as base64 as the configuration expects.
pub fn generate_secret_key() -> (r: String)
    ensures
        base64_decoded(r@) is Some && base64_decoded(r@)->Some_0.len() == 32,
{
    let bytes = random_key_bytes();
    encode_base64(&bytes)
}

/// Relies on `std::path::Path::is_file`: whether a regular file is at the path
/// right now. Nothing is promised of the answer.
#[verifier::external_body]
fn is_file(path: &str) -> bool {
    std::path::Path::new(path).is_file()
}

pub open spec fn has_suffix(s: Seq<char>, suffix: Seq<char>) -> bool {
    s.len() >= suffix.len() && s.subrange(s.len() - suffix.len(), s.len() as int) == suffix
}

/// Whether the text ends with the suffix.
pub fn ends_with(s: &str, suffix: &str) -> (r: bool)
    ensures
        r == has_suffix(s@, suffix@),
{
    let n = s.unicode_len();
    let m = suffix.unicode_len();
    if n < m {
        return false;
    }
    let mut k: usize = 0;
    while k < m
        invariant
            n == s@.len(),
            m == suffix@.len(),
            m <= n,
            k <= m,
            forall|j: int| 0 <= j < k ==> s@[n - m + j] == suffix@[j],
        decreases m - k,
    {
        if s.get_char(n - m + k) != suffix.get_char(k) {
            proof {
                assert(s@.subrange(n - m, n as int)[k as int] == s@[n - m + k]);
            }
            return false;
        }
        k = k + 1;
    }
    proof {
        assert(s@.subrange(n - m, n as int) =~= suffix@);
    }
    true
}

pub open spec fn format_spec(filename: Seq<char>) -> Option<ConfigFormat> {
    if has_suffix(filename, ".json"@) {
        Some(ConfigFormat::Json)
    } else if has_suffix(filename, ".toml"@) {
        Some(ConfigFormat::Toml)
    } else if has_suffix(filename, ".yml"@) || has_suffix(filename, ".yaml"@) {
        Some(ConfigFormat::Yaml)
    } else {
        None
    }
}

/// The format a file name announces by its extension.
pub fn format_of(filename: &str) -> (r: Option<ConfigFormat>)
    ensures
        r == format_spec(filename@),
{
    if ends_with(filename, ".json") {
        Some(ConfigFormat::Json)
    } else if ends_with(filename, ".toml") {
        Some(ConfigFormat::Toml)
    } else if ends_with(filename, ".yml") || ends_with(filename, ".yaml") {
        Some(ConfigFormat::Yaml)
    } else {
        None
    }
}

pub open spec fn locate_spec(filename: Option<Seq<char>>, probe: FileProbe) -> Result<(Seq<char>, ConfigFormat), ConfigError> {
    match filename {
        Some(name) => if !probe.custom {
            Err(ConfigError::CustomFileNotFound)
        } else {
            match format_spec(name) {
                Some(f) => Ok((name, f)),
                None => Err(ConfigError::UnknownFormat),
            }
        },
        None => if probe.json {
            Ok(("ruma.json"@, ConfigFormat::Json))
        } else if probe.toml {
            Ok(("ruma.toml"@, ConfigFormat::Toml))
        } else if probe.yaml {
            Ok(("ruma.yaml"@, ConfigFormat::Yaml))
        } else if probe.yml {
            Ok(("ruma.yml"@, ConfigFormat::Yaml))
        } else {
            Err(ConfigError::NoConfigFile)
        },
    }
}

pub open spec fn source_view(r: Result<ConfigSource, ConfigError>) -> Result<(Seq<char>, ConfigFormat), ConfigError> {
    match r {
        Ok(s) => Ok((s.path@, s.format)),
        Err(e) => Err(e),
    }
}

pub open spec fn opt_str_view(s: Option<&str>) -> Option<Seq<char>> {
    match s {
        Some(v) => Some(v@),
        None => None,
    }
}

impl Config {
    /// Check if there is a configuration file in JSON.
    pub fn json_exists() -> bool {
        is_file("ruma.json")
    }

    /// Check if there is a configuration file in TOML.
    pub fn toml_exists() -> bool {
        is_file("ruma.toml")
    }

    /// Check if there is a configuration file in YAML.
    pub fn yaml_exists() -> bool {
        is_file("ruma.yml") || is_file("ruma.yaml")
    }

    /// Picks the file to read: the named one, which must exist and have a
    /// known extension, or else the first default file found, JSON first.
    pub fn locate(filename: Option<&str>, probe: FileProbe) -> (r: Result<ConfigSource, ConfigError>)
        ensures
            source_view(r) == locate_spec(opt_str_view(filename), probe),
    {
        match filename {
            Some(name) => {
                if !probe.custom {
                    return Err(ConfigError::CustomFileNotFound);
                }
                match format_of(name) {
                    Some(format) => Ok(ConfigSource { path: name.to_owned(), format }),
                    None => Err(ConfigError::UnknownFormat),
                }
            },
            None => if probe.json {
                Ok(ConfigSource { path: "ruma.json".to_owned(), format: ConfigFormat::Json })
            } else if probe.toml {
                Ok(ConfigSource { path: "ruma.toml".to_owned(), format: ConfigFormat::Toml })
            } else if probe.yaml {
                Ok(ConfigSource { path: "ruma.yaml".to_owned(), format: ConfigFormat::Yaml })
            } else if probe.yml {
                Ok(ConfigSource { path: "ruma.yml".to_owned(), format: ConfigFormat::Yaml })
            } else {
                Err(ConfigError::NoConfigFile)
            },
        }
    }

    /// Looks on disk for the configuration file to read.
    pub fn find_file(filename: Option<&str>) -> (r: Result<ConfigSource, ConfigError>)
        ensures
            filename is Some && r is Ok ==> r->Ok_0.path@ == filename->Some_0@,
            filename is Some && r is Ok ==> format_spec(filename->Some_0@) == Some(r->Ok_0.format),
            exists|probe: FileProbe| source_view(r) == locate_spec(opt_str_view(filename), probe),
    {
        let custom = match filename {
            Some(name) => is_file(name),
            None => false,
        };
        let probe = FileProbe {
            custom,
            json: Config::json_exists(),
            toml: Config::toml_exists(),
            yaml: is_file("ruma.yaml"),
            yml: is_file("ruma.yml"),
        };
        let r = Config::locate(filename, probe);
        assert(source_view(r) == locate_spec(opt_str_view(filename), probe));
        r
    }

    /// Checks the raw configuration: the secret key must be base64 for exactly
    /// 32 bytes; a missing address or port takes its default.
    pub fn from_raw(raw: RawConfig) -> (r: Result<Config, ConfigError>)
        ensures
            base64_decoded(raw.macaroon_secret_key@) is None ==> r == Err::<Config, ConfigError>(ConfigError::SecretNotBase64),
            base64_decoded(raw.macaroon_secret_key@) is Some && base64_decoded(raw.macaroon_secret_key@)->Some_0.len() != 32
                ==> r == Err::<Config, ConfigError>(ConfigError::SecretWrongLength),
            r is Ok <==> base64_decoded(raw.macaroon_secret_key@) is Some
                && base64_decoded(raw.macaroon_secret_key@)->Some_0.len() == 32,
            r is Ok ==> {
                &&& Some(r->Ok_0.macaroon_secret_key@) == base64_decoded(raw.macaroon_secret_key@)
                &&& r->Ok_0.bind_address@ == match raw.bind_address { Some(a) => a@, None => "127.0.0.1"@ }
                &&& r->Ok_0.bind_port@ == match raw.bind_port { Some(p) => p@, None => "3000"@ }
                &&& r->Ok_0.domain == raw.domain
                &&& r->Ok_0.postgres_url == raw.postgres_url
            },
    {
        let key = match decode_base64(&raw.macaroon_secret_key) {
            Some(bytes) => bytes,
            None => return Err(ConfigError::SecretNotBase64),
        };
        if key.len() != 32 {
            return Err(ConfigError::SecretWrongLength);
        }
        let bind_address = match raw.bind_address {
            Some(a) => a,
            None => "127.0.0.1".to_owned(),
        };
        let bind_port = match raw.bind_port {
            Some(p) => p,
            None => "3000".to_owned(),
        };
        Ok(Config {
            bind_address,
            bind_port,
            domain: raw.domain,
            macaroon_secret_key: key,
            postgres_url: raw.postgres_url,
        })
    }
}

} // verus!
