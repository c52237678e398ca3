use bot_scaffold::config::build_config;
use bot_scaffold::config::ConfigError;
use bot_scaffold::flags::not_using_dotenv;
use bot_scaffold::flags::InvalidFlag;
use bot_scaffold::health::pong;
use bot_scaffold::prefixes::parse_prefixes;
use bot_scaffold::prefixes::split_spaces;

#[test]
fn prefixes_split_in_order() {
    let (primary, additional) = parse_prefixes(Some("! ? $"));
    assert_eq!(primary.as_deref(), Some("!"));
    assert_eq!(additional, vec!["?".to_string(), "$".to_string()]);
}

#[test]
fn prefixes_single_value_has_no_additional() {
    let (primary, additional) = parse_prefixes(Some("!"));
    assert_eq!(primary.as_deref(), Some("!"));
    assert!(additional.is_empty());
}

#[test]
fn prefixes_absent_yields_nothing() {
    let (primary, additional) = parse_prefixes(None);
    assert_eq!(primary, None);
    assert!(additional.is_empty());
}

#[test]
fn prefixes_empty_value_yields_empty_primary() {
    let (primary, additional) = parse_prefixes(Some(""));
    assert_eq!(primary.as_deref(), Some(""));
    assert!(additional.is_empty());
}

#[test]
fn prefixes_keep_empty_pieces() {
    let (primary, additional) = parse_prefixes(Some("a  b"));
    assert_eq!(primary.as_deref(), Some("a"));
    assert_eq!(additional, vec!["".to_string(), "b".to_string()]);

    let (primary, additional) = parse_prefixes(Some(" a"));
    assert_eq!(primary.as_deref(), Some(""));
    assert_eq!(additional, vec!["a".to_string()]);
}

#[test]
fn prefixes_multibyte_characters_survive() {
    let (primary, additional) = parse_prefixes(Some("€ λ"));
    assert_eq!(primary.as_deref(), Some("€"));
    assert_eq!(additional, vec!["λ".to_string()]);
}

#[test]
fn split_spaces_matches_std_split() {
    for s in ["", "a", "a b", "a  b", " ", "  ", "one two three", " x "] {
        let got = split_spaces(s);
        let want: Vec<String> = s.split(' ').map(|p| p.to_string()).collect();
        assert_eq!(got, want, "splitting {:?}", s);
    }
}

#[test]
fn flag_absent_keeps_warning() {
    assert_eq!(not_using_dotenv(None), Ok(false));
}

#[test]
fn flag_true_spellings_disable_warning() {
    assert_eq!(not_using_dotenv(Some("1")), Ok(true));
    assert_eq!(not_using_dotenv(Some("true")), Ok(true));
    assert_eq!(not_using_dotenv(Some("TRUE")), Ok(true));
    assert_eq!(not_using_dotenv(Some("TrUe")), Ok(true));
}

#[test]
fn flag_false_spellings_keep_warning() {
    assert_eq!(not_using_dotenv(Some("0")), Ok(false));
    assert_eq!(not_using_dotenv(Some("false")), Ok(false));
    assert_eq!(not_using_dotenv(Some("FaLsE")), Ok(false));
}

#[test]
fn flag_malformed_values_are_rejected() {
    assert_eq!(not_using_dotenv(Some("yes")), Err(InvalidFlag));
    assert_eq!(not_using_dotenv(Some("")), Err(InvalidFlag));
    assert_eq!(not_using_dotenv(Some("2")), Err(InvalidFlag));
    assert_eq!(not_using_dotenv(Some("true ")), Err(InvalidFlag));
    assert_eq!(not_using_dotenv(Some("trüe")), Err(InvalidFlag));
}

#[test]
fn pong_replies_with_fixed_text() {
    assert_eq!(pong(), "pong!");
}

#[test]
fn config_requires_token_first() {
    let r = build_config(None, None, None);
    assert_eq!(r.err(), Some(ConfigError::MissingToken));
    let r = build_config(None, Some("postgres://db".to_string()), Some("!"));
    assert_eq!(r.err(), Some(ConfigError::MissingToken));
}

#[test]
fn config_requires_database_url() {
    let r = build_config(Some("token".to_string()), None, Some("!"));
    assert_eq!(r.err(), Some(ConfigError::MissingDatabaseUrl));
}

#[test]
fn config_assembles_all_fields() {
    let c = build_config(
        Some("example-token".to_string()),
        Some("postgres://db".to_string()),
        Some("! ?"),
    )
    .unwrap();
    assert_eq!(c.token, "example-token");
    assert_eq!(c.database_url, "postgres://db");
    assert_eq!(c.primary_prefix.as_deref(), Some("!"));
    assert_eq!(c.additional_prefixes, vec!["?".to_string()]);
}

#[test]
fn config_without_prefixes() {
    let c = build_config(
        Some("token".to_string()),
        Some("postgres://db".to_string()),
        None,
    )
    .unwrap();
    assert_eq!(c.primary_prefix, None);
    assert!(c.additional_prefixes.is_empty());
}
