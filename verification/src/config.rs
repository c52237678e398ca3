use vstd::prelude::*;

use crate::prefixes::split_on;

verus! {

/// Why the startup configuration cannot be assembled.
#[derive(Debug, Clone, Copy, PartialEq, Eq, Structural)]
pub enum ConfigError {
    /// The bot authentication token is absent.
    MissingToken,
    /// The database connection string is absent.
    MissingDatabaseUrl,
}

/// Everything startup reads from its environment, as plain values.
pub struct Config {
    /// The bot authentication token.
    pub token: String,
    /// The database connection string.
    pub database_url: String,
    /// The prefix users type before a command name, if prefixes are set up.
    pub primary_prefix: Option<String>,
    /// Further literal prefixes, in the order they were given.
    pub additional_prefixes: Vec<String>,
}

/// Assembles the startup configuration. The token and the database
/// connection string are required, in that order of complaint; the prefix
/// setting is optional and splits as `parse_prefixes` does.
pub fn build_config(
    token: Option<String>,
    database_url: Option<String>,
    prefixes: Option<&str>,
) -> (r: Result<Config, ConfigError>)
    ensures
        match (token, database_url) {
            (None, _) => r == Err::<Config, ConfigError>(ConfigError::MissingToken),
            (Some(_), None) => r == Err::<Config, ConfigError>(ConfigError::MissingDatabaseUrl),
            (Some(t), Some(d)) => {
                &&& r matches Ok(c)
                &&& c.token == t
                &&& c.database_url == d
                &&& prefixes is None ==> c.primary_prefix is None
                    && c.additional_prefixes@.len() == 0
                &&& prefixes matches Some(p) ==> {
                    &&& c.primary_prefix matches Some(pp) && pp@ == split_on(p@, ' ')[0]
                    &&& c.additional_prefixes.deep_view() == split_on(p@, ' ').drop_first()
                }
            },
        },
{
    let token = match token {
        None => {
            return Err(ConfigError::MissingToken);
        },
        Some(t) => t,
    };
    let database_url = match database_url {
        None => {
            return Err(ConfigError::MissingDatabaseUrl);
        },
        Some(d) => d,
    };
    let (primary_prefix, additional_prefixes) = crate::prefixes::parse_prefixes(prefixes);
    Ok(
        (Config {
            token,
            database_url,
            primary_prefix,
            additional_prefixes,
        }),
    )
}

} // verus!
