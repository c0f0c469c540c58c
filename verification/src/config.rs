//! The configuration of the process: the port to listen on, read from the
//! dotenv file or, where that has none, from the environment. Looking a
//! variable up is the caller's; what is made of the answer is decided here.

use vstd::prelude::*;
use vstd::string::*;

verus! {

/// Where a configuration comes from.
#[derive(Debug, Clone, Copy, PartialEq, Eq, Structural)]
pub enum ConfigSource {
    Os,
    Dotenv,
}

/// Why a text is no port number.
#[derive(Debug, Clone, Copy, PartialEq, Eq, Structural)]
pub enum PortError {
    Empty,
    InvalidDigit,
    TooLarge,
}

/// What looking up the port in one source gave.
#[derive(Debug, Clone, PartialEq, Eq)]
pub enum Lookup {
    /// The variable and its value.
    Found(String),
    /// The source has no such variable.
    NotPresent,
    /// The source could not be read; the text says why.
    Failed(String),
}

/// Why there is no configuration.
#[derive(Debug, Clone, PartialEq, Eq)]
pub enum ConfigError {
    Os(String),
    Dotenv(String),
    BadConfiguration(PortError),
    ConfigNotFound(ConfigSource),
}

/// The configuration of the process.
#[derive(Debug, Clone, Copy, PartialEq, Eq, Structural)]
pub struct Config {
    pub source: ConfigSource,
    pub port: u16,
}

/// The value of a lookup.
pub enum LookupView {
    Found(Seq<char>),
    NotPresent,
    Failed(Seq<char>),
}

/// The value of a configuration error.
pub enum ConfigErrorView {
    Os(Seq<char>),
    Dotenv(Seq<char>),
    BadConfiguration(PortError),
    ConfigNotFound(ConfigSource),
}

impl View for Lookup {
    type V = LookupView;

    open spec fn view(&self) -> LookupView {
        match self {
            Lookup::Found(s) => LookupView::Found(s@),
            Lookup::NotPresent => LookupView::NotPresent,
            Lookup::Failed(s) => LookupView::Failed(s@),
        }
    }
}

impl View for ConfigError {
    type V = ConfigErrorView;

    open spec fn view(&self) -> ConfigErrorView {
        match self {
            ConfigError::Os(s) => ConfigErrorView::Os(s@),
            ConfigError::Dotenv(s) => ConfigErrorView::Dotenv(s@),
            ConfigError::BadConfiguration(e) => ConfigErrorView::BadConfiguration(*e),
            ConfigError::ConfigNotFound(s) => ConfigErrorView::ConfigNotFound(*s),
        }
    }
}

/// A configuration or an error, the error as its value.
pub open spec fn outcome_view(r: Result<Config, ConfigError>) -> Result<Config, ConfigErrorView> {
    match r {
        Ok(c) => Ok(c),
        Err(e) => Err(e@),
    }
}

/// Whether `c` is a decimal digit.
pub open spec fn is_digit(c: char) -> bool {
    '0' <= c <= '9'
}

/// The number that the digits of `s` from index `i` on add to `acc`, read
/// left to right: the first character that is no digit, or the first digit
/// that takes the number over 65535, ends the reading with an error.
pub open spec fn port_from(s: Seq<char>, i: int, acc: int) -> Result<u16, PortError>
    decreases s.len() - i,
{
    if i < 0 || i >= s.len() {
        Ok(acc as u16)
    } else if !is_digit(s[i]) {
        Err(PortError::InvalidDigit)
    } else {
        let next = acc * 10 + (s[i] as u32 - '0' as u32);
        if next > 65535 {
            Err(PortError::TooLarge)
        } else {
            port_from(s, i + 1, next)
        }
    }
}

/// The port that a text stands for: decimal digits, with or without one
/// `+` before them.
pub open spec fn port_of(s: Seq<char>) -> Result<u16, PortError> {
    if s.len() == 0 {
        Err(PortError::Empty)
    } else if s.len() == 1 && (s[0] == '+' || s[0] == '-') {
        Err(PortError::InvalidDigit)
    } else if s[0] == '+' {
        port_from(s, 1, 0)
    } else {
        port_from(s, 0, 0)
    }
}

/// The configuration that one source gives.
pub open spec fn config_from(source: ConfigSource, lookup: LookupView) -> Result<
    Config,
    ConfigErrorView,
> {
    match lookup {
        LookupView::NotPresent => Err(ConfigErrorView::ConfigNotFound(source)),
        LookupView::Failed(why) => match source {
            ConfigSource::Os => Err(ConfigErrorView::Os(why)),
            ConfigSource::Dotenv => Err(ConfigErrorView::Dotenv(why)),
        },
        LookupView::Found(text) => match port_of(text) {
            Ok(port) => Ok(Config { source: source, port: port }),
            Err(e) => Err(ConfigErrorView::BadConfiguration(e)),
        },
    }
}

/// The configuration of the process: that of the dotenv file, and that of
/// the environment only where the dotenv file has none.
pub open spec fn config_of(dotenv: LookupView, os: LookupView) -> Result<Config, ConfigErrorView> {
    match config_from(ConfigSource::Dotenv, dotenv) {
        Err(ConfigErrorView::ConfigNotFound(_)) => config_from(ConfigSource::Os, os),
        other => other,
    }
}

/// The port that a text stands for.
pub fn parse_port(s: &str) -> (r: Result<u16, PortError>)
    ensures
        r == port_of(s@),
{
    let n: usize = s.unicode_len();
    if n == 0 {
        return Err(PortError::Empty);
    }
    let first = s.get_char(0);
    if n == 1 && (first == '+' || first == '-') {
        return Err(PortError::InvalidDigit);
    }
    let mut i: usize = if first == '+' {
        1
    } else {
        0
    };
    let mut acc: u32 = 0;
    while i < n
        invariant
            n == s@.len(),
            0 <= i <= n,
            acc <= 65535,
            port_of(s@) == port_from(s@, i as int, acc as int),
        decreases n - i,
    {
        let c = s.get_char(i);
        if !('0' <= c && c <= '9') {
            return Err(PortError::InvalidDigit);
        }
        let next: u32 = acc * 10 + (c as u32 - '0' as u32);
        if next > 65535 {
            return Err(PortError::TooLarge);
        }
        acc = next;
        i = i + 1;
    }
    Ok(acc as u16)
}

impl ConfigSource {
    /// The name of the source, as a line of text.
    pub fn describe(&self) -> (r: String)
        ensures
            r@ == match self {
                ConfigSource::Os => "Operating System\n"@,
                ConfigSource::Dotenv => "Dotenv\n"@,
            },
    {
        match self {
            ConfigSource::Os => String::from_str("Operating System\n"),
            ConfigSource::Dotenv => String::from_str("Dotenv\n"),
        }
    }
}

impl PortError {
    /// What is wrong with the text, in words.
    pub fn describe(&self) -> (r: String)
        ensures
            r@ == match self {
                PortError::Empty => "cannot parse integer from empty string"@,
                PortError::InvalidDigit => "invalid digit found in string"@,
                PortError::TooLarge => "number too large to fit in target type"@,
            },
    {
        match self {
            PortError::Empty => String::from_str("cannot parse integer from empty string"),
            PortError::InvalidDigit => String::from_str("invalid digit found in string"),
            PortError::TooLarge => String::from_str("number too large to fit in target type"),
        }
    }
}

impl ConfigError {
    /// The error in words.
    pub fn describe(&self) -> (r: String)
        ensures
            r@ == match self@ {
                ConfigErrorView::Os(why) => why,
                ConfigErrorView::Dotenv(why) => why,
                ConfigErrorView::BadConfiguration(e) => match e {
                    PortError::Empty => "cannot parse integer from empty string"@,
                    PortError::InvalidDigit => "invalid digit found in string"@,
                    PortError::TooLarge => "number too large to fit in target type"@,
                },
                ConfigErrorView::ConfigNotFound(source) => "Unable to find configuration from "@
                    + match source {
                    ConfigSource::Os => "Operating System\n"@,
                    ConfigSource::Dotenv => "Dotenv\n"@,
                } + "\n"@,
            },
    {
        match self {
            ConfigError::Os(why) => why.clone(),
            ConfigError::Dotenv(why) => why.clone(),
            ConfigError::BadConfiguration(e) => e.describe(),
            ConfigError::ConfigNotFound(source) => {
                let name = source.describe();
                String::from_str("Unable to find configuration from ").concat(
                    name.as_str(),
                ).concat("\n")
            },
        }
    }
}

impl Config {
    fn from_source(source: ConfigSource, lookup: Lookup) -> (r: Result<Config, ConfigError>)
        ensures
            outcome_view(r) == config_from(source, lookup@),
    {
        match lookup {
            Lookup::NotPresent => Err(ConfigError::ConfigNotFound(source)),
            Lookup::Failed(why) => match source {
                ConfigSource::Os => Err(ConfigError::Os(why)),
                ConfigSource::Dotenv => Err(ConfigError::Dotenv(why)),
            },
            Lookup::Found(text) => match parse_port(text.as_str()) {
                Ok(port) => Ok(Config { source, port }),
                Err(e) => Err(ConfigError::BadConfiguration(e)),
            },
        }
    }

    /// The configuration that the environment gives.
    pub fn with_os_env(lookup: Lookup) -> (r: Result<Config, ConfigError>)
        ensures
            outcome_view(r) == config_from(ConfigSource::Os, lookup@),
    {
        Config::from_source(ConfigSource::Os, lookup)
    }

    /// The configuration that the dotenv file gives.
    pub fn with_dotenv(lookup: Lookup) -> (r: Result<Config, ConfigError>)
        ensures
            outcome_view(r) == config_from(ConfigSource::Dotenv, lookup@),
    {
        Config::from_source(ConfigSource::Dotenv, lookup)
    }

    /// The configuration of the process, given what each source holds.
    pub fn new(dotenv: Lookup, os: Lookup) -> (r: Result<Config, ConfigError>)
        ensures
            outcome_view(r) == config_of(dotenv@, os@),
    {
        match Config::with_dotenv(dotenv) {
            Ok(config) => Ok(config),
            Err(ConfigError::ConfigNotFound(_)) => Config::with_os_env(os),
            Err(e) => Err(e),
        }
    }
}

} // verus!
