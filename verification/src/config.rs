//! The bot's configuration, as read from the environment.
use vstd::prelude::*;

verus! {

/// The channel to join and the account to join it with.
#[derive(Clone, Debug)]
pub struct AppConfig {
    pub channel: String,
    pub twitch_username: Option<String>,
    pub twitch_token: Option<String>,
}

/// The name of the running environment: the value of `ENVIRONMENT` when it is
/// set, `development` otherwise.
pub fn environment_name(value: Option<String>) -> (name: String)
    ensures
        match value {
            Some(v) => name == v,
            None => name@ == "development"@,
        },
{
    match value {
        Some(v) => v,
        None => String::from_str("development"),
    }
}

/// The file that holds the environment's settings: its name followed by
/// `.env`.
pub fn env_file_name(environment: &str) -> (name: String)
    ensures
        name@ == environment@ + ".env"@,
{
    let mut name = String::from_str(environment);
    name.append(".env");
    name
}

impl AppConfig {
    /// The configuration for the values of `TWITCH_IRC_CHANNEL`,
    /// `TWITCH_IRC_USERNAME` and `TWITCH_IRC_OAUTH_TOKEN`; the channel is
    /// `test_channel` when unset.
    pub fn from_values(channel: Option<String>, username: Option<String>, token: Option<String>) -> (c: AppConfig)
        ensures
            match channel {
                Some(ch) => c.channel == ch,
                None => c.channel@ == "test_channel"@,
            },
            c.twitch_username == username,
            c.twitch_token == token,
    {
        let channel = match channel {
            Some(ch) => ch,
            None => String::from_str("test_channel"),
        };
        AppConfig { channel, twitch_username: username, twitch_token: token }
    }
}

} // verus!
