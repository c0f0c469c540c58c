use chainsawman_api::config::{parse_port, Config, ConfigError, ConfigSource, Lookup, PortError};
use chainsawman_api::graphql::Query;
use chainsawman_api::models::DevilDetail;
use chainsawman_api::services::{DevilDataSource, DevilService, ScrapeError};

#[test]
fn a_port_is_decimal_digits_with_or_without_a_plus() {
    assert_eq!(parse_port("8080"), Ok(8080));
    assert_eq!(parse_port("+80"), Ok(80));
    assert_eq!(parse_port("0"), Ok(0));
    assert_eq!(parse_port("00065535"), Ok(65535));
}

#[test]
fn a_port_that_is_no_number_is_refused() {
    assert_eq!(parse_port(""), Err(PortError::Empty));
    assert_eq!(parse_port("+"), Err(PortError::InvalidDigit));
    assert_eq!(parse_port("-"), Err(PortError::InvalidDigit));
    assert_eq!(parse_port("-1"), Err(PortError::InvalidDigit));
    assert_eq!(parse_port("80a"), Err(PortError::InvalidDigit));
    assert_eq!(parse_port(" 80"), Err(PortError::InvalidDigit));
    assert_eq!(parse_port("++80"), Err(PortError::InvalidDigit));
    assert_eq!(parse_port("８０"), Err(PortError::InvalidDigit));
    assert_eq!(parse_port("65536"), Err(PortError::TooLarge));
    assert_eq!(parse_port("99999999999999999999"), Err(PortError::TooLarge));
    assert_eq!(parse_port("999999x"), Err(PortError::TooLarge));
}

#[test]
fn parse_port_agrees_with_std() {
    for text in ["", "+", "-", "1", "+1", "-1", "65535", "65536", "070", "7 ", "x", "1e3", "655350"] {
        assert_eq!(parse_port(text).ok(), text.parse::<u16>().ok(), "{:?}", text);
    }
}

#[test]
fn the_dotenv_file_comes_first() {
    assert_eq!(
        Config::new(Lookup::Found("3000".to_string()), Lookup::Found("4000".to_string())),
        Ok(Config { source: ConfigSource::Dotenv, port: 3000 })
    );
}

#[test]
fn the_environment_is_asked_where_the_dotenv_file_has_no_port() {
    assert_eq!(
        Config::new(Lookup::NotPresent, Lookup::Found("4000".to_string())),
        Ok(Config { source: ConfigSource::Os, port: 4000 })
    );
    assert_eq!(
        Config::new(Lookup::NotPresent, Lookup::NotPresent),
        Err(ConfigError::ConfigNotFound(ConfigSource::Os))
    );
    assert_eq!(
        Config::new(Lookup::NotPresent, Lookup::Failed("not unicode".to_string())),
        Err(ConfigError::Os("not unicode".to_string()))
    );
}

#[test]
fn other_errors_of_the_dotenv_file_end_the_search() {
    assert_eq!(
        Config::new(Lookup::Failed("bad line".to_string()), Lookup::Found("4000".to_string())),
        Err(ConfigError::Dotenv("bad line".to_string()))
    );
    assert_eq!(
        Config::new(Lookup::Found("port".to_string()), Lookup::Found("4000".to_string())),
        Err(ConfigError::BadConfiguration(PortError::InvalidDigit))
    );
}

#[test]
fn each_source_alone() {
    assert_eq!(
        Config::with_os_env(Lookup::Found("+1".to_string())),
        Ok(Config { source: ConfigSource::Os, port: 1 })
    );
    assert_eq!(
        Config::with_dotenv(Lookup::NotPresent),
        Err(ConfigError::ConfigNotFound(ConfigSource::Dotenv))
    );
    assert_eq!(
        Config::with_dotenv(Lookup::Found("70000".to_string())),
        Err(ConfigError::BadConfiguration(PortError::TooLarge))
    );
}

#[test]
fn errors_in_words() {
    assert_eq!(ConfigSource::Os.describe(), "Operating System\n");
    assert_eq!(ConfigSource::Dotenv.describe(), "Dotenv\n");
    assert_eq!(
        ConfigError::ConfigNotFound(ConfigSource::Dotenv).describe(),
        "Unable to find configuration from Dotenv\n\n"
    );
    assert_eq!(ConfigError::Os("why".to_string()).describe(), "why");
    assert_eq!(
        ConfigError::BadConfiguration(PortError::Empty).describe(),
        "cannot parse integer from empty string"
    );
    assert_eq!(
        ConfigError::BadConfiguration(PortError::TooLarge).describe(),
        "number too large to fit in target type"
    );
}

#[test]
fn the_root_query_answers() {
    assert_eq!(Query.health(), "Hello, World!");
}

struct Fixed(usize);

impl DevilDataSource for Fixed {
    fn scrape(&self) -> Result<Vec<DevilDetail>, ScrapeError> {
        if self.0 == 0 {
            Err(ScrapeError::Transport("listing page".to_string()))
        } else {
            Ok((0..self.0).map(|_| DevilDetail::blank()).collect())
        }
    }
}

#[test]
fn the_service_gives_what_its_source_gives() {
    let service = DevilService::new(Fixed(2));
    assert_eq!(service.scrape(), Ok(vec![DevilDetail::blank(), DevilDetail::blank()]));
    let service = DevilService::new(Fixed(0));
    assert_eq!(service.scrape(), Err(ScrapeError::Transport("listing page".to_string())));
}
