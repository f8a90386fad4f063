use vstd::prelude::*;

verus! {

/// Where notifications go: at least one of the two is needed.
#[derive(Clone, Debug)]
pub struct SlackConfig {
    pub api_token: Option<String>,
    pub webhook_url: Option<String>,
}

/// The settings of the watch.
#[derive(Clone, Debug)]
pub struct Config {
    pub slack: SlackConfig,
    pub sleep_time_seconds: u64,
}

/// Why the settings were refused.
#[derive(Clone, Copy, Debug, PartialEq, Eq)]
pub enum ConfigError {
    /// The polling interval is zero.
    ZeroInterval,
    /// Neither a webhook URL nor an API token is given.
    NoSink,
}

/// The way a message is delivered.
#[derive(Clone, Debug)]
pub enum Sink {
    Webhook(String),
    ApiToken(String),
}

impl Config {
    /// A positive interval and at least one notification sink.
    pub open spec fn valid(&self) -> bool {
        &&& self.sleep_time_seconds > 0
        &&& (self.slack.webhook_url is Some || self.slack.api_token is Some)
    }

    /// Checks the settings: a positive interval and a notification sink.
    pub fn new(slack: SlackConfig, sleep_time_seconds: u64) -> (r: Result<Config, ConfigError>)
        ensures
            sleep_time_seconds == 0 <==> r == Err::<Config, ConfigError>(ConfigError::ZeroInterval),
            sleep_time_seconds > 0 && slack.webhook_url is None && slack.api_token is None
                <==> r == Err::<Config, ConfigError>(ConfigError::NoSink),
            r is Ok ==> r->Ok_0 == (Config { slack, sleep_time_seconds }) && r->Ok_0.valid(),
    {
        if sleep_time_seconds == 0 {
            return Err(ConfigError::ZeroInterval);
        }
        if slack.webhook_url.is_none() && slack.api_token.is_none() {
            return Err(ConfigError::NoSink);
        }
        Ok(Config { slack, sleep_time_seconds })
    }

    /// The sink to deliver to: the webhook where one is given, else the API
    /// token.
    pub fn sink(&self) -> (r: Sink)
        requires
            self.valid(),
        ensures
            match self.slack.webhook_url {
                Some(u) => r == Sink::Webhook(u),
                None => r == Sink::ApiToken(self.slack.api_token->0),
            },
    {
        match &self.slack.webhook_url {
            Some(u) => Sink::Webhook(u.clone()),
            None => match &self.slack.api_token {
                Some(t) => Sink::ApiToken(t.clone()),
                None => Sink::ApiToken(String::new()),
            },
        }
    }
}

} // verus!
