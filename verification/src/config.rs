//! The configuration of the bridge.

use crate::text::{is_blank, str_is_blank};
use vstd::prelude::*;

verus! {

/// The whole configuration.
#[derive(Debug, Clone, PartialEq, Eq)]
pub struct Config {
    pub slack: SlackConfig,
    pub claude: ClaudeConfig,
    pub tmux: TmuxConfig,
    pub hooks: HooksConfig,
    pub coordinator: CoordinatorConfig,
}

/// The tokens of the chat platform.
#[derive(Debug, Clone, PartialEq, Eq)]
pub struct SlackConfig {
    pub bot_token: String,
    pub app_token: String,
}

/// The assistant: its command and the base working directory.
#[derive(Debug, Clone, PartialEq, Eq)]
pub struct ClaudeConfig {
    pub command: String,
    pub cwd: String,
}

/// The multiplexer: the prefix of session names.
#[derive(Debug, Clone, PartialEq, Eq)]
pub struct TmuxConfig {
    pub session_prefix: String,
}

/// The hook file. A relative path is taken below each workspace, an
/// absolute path is shared by all.
#[derive(Debug, Clone, PartialEq, Eq)]
pub struct HooksConfig {
    pub events_path: String,
}

/// The coordinator's time limits.
#[derive(Debug, Clone, Copy, PartialEq, Eq, Structural)]
pub struct CoordinatorConfig {
    pub hook_timeout_secs: u64,
    pub prompt_timeout_ms: u64,
}

/// Why a configuration is not accepted.
#[derive(Debug, Clone, Copy, PartialEq, Eq, Structural)]
pub enum ConfigError {
    /// One of the two tokens of the chat platform is blank.
    MissingSlackTokens,
}

impl ConfigError {
    /// The error in words.
    pub fn message(&self) -> (r: String)
        ensures
            r@ == "slack.bot_token and slack.app_token are required"@,
    {
        String::from_str("slack.bot_token and slack.app_token are required")
    }
}

/// The prefix of session names, unless configured.
pub fn default_session_prefix() -> (r: String)
    ensures
        r@ == "ccterm"@,
{
    String::from_str("ccterm")
}

/// Seconds to wait for a hook, unless configured.
pub fn default_hook_timeout_secs() -> (r: u64)
    ensures
        r == 10,
{
    10
}

/// Milliseconds to wait for the prompt, unless configured.
pub fn default_prompt_timeout_ms() -> (r: u64)
    ensures
        r == 10_000,
{
    10_000
}

impl ClaudeConfig {
    /// The assistant that is started with `command` and whose base
    /// working directory is `cwd`.
    pub fn new(command: &str, cwd: &str) -> (r: Self)
        ensures
            r.command@ == command@,
            r.cwd@ == cwd@,
    {
        ClaudeConfig { command: String::from_str(command), cwd: String::from_str(cwd) }
    }
}

impl HooksConfig {
    /// The hook file at `events_path`.
    pub fn new(events_path: &str) -> (r: Self)
        ensures
            r.events_path@ == events_path@,
    {
        HooksConfig { events_path: String::from_str(events_path) }
    }
}

impl Default for TmuxConfig {
    fn default() -> (r: Self)
        ensures
            r.session_prefix@ == "ccterm"@,
    {
        TmuxConfig { session_prefix: default_session_prefix() }
    }
}

impl Default for CoordinatorConfig {
    fn default() -> (r: Self)
        ensures
            r.hook_timeout_secs == 10,
            r.prompt_timeout_ms == 10_000,
    {
        CoordinatorConfig {
            hook_timeout_secs: default_hook_timeout_secs(),
            prompt_timeout_ms: default_prompt_timeout_ms(),
        }
    }
}

impl Config {
    /// Whether both tokens of the chat platform are there.
    pub open spec fn has_tokens(self) -> bool {
        !is_blank(self.slack.bot_token@) && !is_blank(self.slack.app_token@)
    }

    /// The configuration with the given tokens, assistant and hook file,
    /// and with the session prefix and the time limits left at their
    /// defaults.
    pub fn with_defaults(slack: SlackConfig, claude: ClaudeConfig, hooks: HooksConfig) -> (r: Self)
        ensures
            r.slack == slack,
            r.claude == claude,
            r.hooks == hooks,
            r.tmux.session_prefix@ == "ccterm"@,
            r.coordinator.hook_timeout_secs == 10,
            r.coordinator.prompt_timeout_ms == 10_000,
    {
        Config {
            slack,
            claude,
            tmux: TmuxConfig::default(),
            hooks,
            coordinator: CoordinatorConfig::default(),
        }
    }

    /// Accepts a configuration that was read: it is refused if and only if
    /// one of the two tokens is blank.
    pub fn validate(self) -> (r: Result<Config, ConfigError>)
        ensures
            match r {
                Ok(config) => self.has_tokens() && config == self,
                Err(e) => !self.has_tokens() && e == ConfigError::MissingSlackTokens,
            },
    {
        if str_is_blank(self.slack.bot_token.as_str()) || str_is_blank(
            self.slack.app_token.as_str(),
        ) {
            Err(ConfigError::MissingSlackTokens)
        } else {
            Ok(self)
        }
    }
}

} // verus!
