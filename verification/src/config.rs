use vstd::prelude::*;
use crate::device_id::{compute_device_id, is_alnum_char};

verus! {

/// The persisted kiosk settings. Every field except `first_run` is optional
/// until configured; `device_id` is filled with a computed identifier on
/// first use.
#[derive(Debug, Clone)]
pub struct Config {
    pub server_url: Option<String>,
    pub server_token: Option<String>,
    pub device_id: Option<String>,
    pub device_location: Option<String>,
    pub device_friendly_name: Option<String>,
    pub first_run: bool,
}

/// A usable device identifier: present, six characters, all letters or
/// digits.
pub open spec fn valid_device_id(id: Option<String>) -> bool {
    id matches Some(s) && s@.len() == 6 && forall|i: int|
        0 <= i < s@.len() ==> is_alnum_char(s@[i])
}

impl Default for Config {
    /// A fresh configuration: nothing set, a computed device identifier, and
    /// the first-run flag raised.
    fn default() -> (c: Config)
        ensures
            c.server_url is None,
            c.server_token is None,
            valid_device_id(c.device_id),
            c.device_location is None,
            c.device_friendly_name is None,
            c.first_run,
    {
        Config {
            server_url: None,
            server_token: None,
            device_id: Some(compute_device_id()),
            device_location: None,
            device_friendly_name: None,
            first_run: true,
        }
    }
}

/// What merging a loaded configuration over the defaults yields: every field
/// the loaded file supplies wins, a missing device identifier is replaced by
/// a computed one, and the first-run flag is always raised afresh — it is
/// deliberately never taken from the file.
pub open spec fn spec_merged(loaded: Option<Config>, r: Config) -> bool {
    match loaded {
        Some(c) => {
            &&& r.server_url == c.server_url
            &&& r.server_token == c.server_token
            &&& (c.device_id is Some ==> r.device_id == c.device_id)
            &&& (c.device_id is None ==> valid_device_id(r.device_id))
            &&& r.device_location == c.device_location
            &&& r.device_friendly_name == c.device_friendly_name
            &&& r.first_run
        },
        None => {
            &&& r.server_url is None
            &&& r.server_token is None
            &&& valid_device_id(r.device_id)
            &&& r.device_location is None
            &&& r.device_friendly_name is None
            &&& r.first_run
        },
    }
}

/// Holds the settings and remembers where they are persisted; reading and
/// writing the file itself is the caller's affair.
pub struct ConfigManager {
    pub config_path: String,
    pub config: Config,
}

impl ConfigManager {
    /// Builds the manager from the path the configuration lives at and
    /// whatever could be loaded from it, merged over the defaults.
    pub fn new(config_path: String, loaded: Option<Config>) -> (m: ConfigManager)
        ensures
            m.config_path == config_path,
            spec_merged(loaded, m.config),
    {
        let merged = Self::merge_with_default(loaded);
        ConfigManager { config_path, config: merged }
    }

    /// Merges a loaded configuration over the defaults, field by field,
    /// prioritizing what was loaded.
    pub fn merge_with_default(config: Option<Config>) -> (r: Config)
        ensures
            spec_merged(config, r),
    {
        let mut default = Config::default();
        if let Some(cfg) = config {
            if let Some(server_url) = cfg.server_url {
                default.server_url = Some(server_url);
            }
            if let Some(server_token) = cfg.server_token {
                default.server_token = Some(server_token);
            }
            if let Some(device_id) = cfg.device_id {
                default.device_id = Some(device_id);
            }
            if let Some(device_location) = cfg.device_location {
                default.device_location = Some(device_location);
            }
            if let Some(device_friendly_name) = cfg.device_friendly_name {
                default.device_friendly_name = Some(device_friendly_name);
            }
        }
        default
    }

    /// Applies one update to the settings; the caller persists afterwards.
    pub fn set<T, F: Fn(&Config, T) -> Config>(&mut self, value: T, f: F)
        requires
            f.requires((&old(self).config, value)),
        ensures
            final(self).config_path == old(self).config_path,
            f.ensures((&old(self).config, value), final(self).config),
    {
        let updated = f(&self.config, value);
        self.config = updated;
    }

    /// Stores the token the server handed out; everything else is kept.
    pub fn set_server_token(&mut self, server_token: String)
        ensures
            final(self).config_path == old(self).config_path,
            final(self).config.server_token == Some(server_token),
            final(self).config.server_url == old(self).config.server_url,
            final(self).config.device_id == old(self).config.device_id,
            final(self).config.device_location == old(self).config.device_location,
            final(self).config.device_friendly_name == old(self).config.device_friendly_name,
            final(self).config.first_run == old(self).config.first_run,
    {
        self.set(server_token, with_server_token);
    }
}

/// The update `set_server_token` applies: the token replaced, all else kept.
fn with_server_token(c: &Config, v: String) -> (r: Config)
    ensures
        r.server_url == c.server_url,
        r.server_token == Some(v),
        r.device_id == c.device_id,
        r.device_location == c.device_location,
        r.device_friendly_name == c.device_friendly_name,
        r.first_run == c.first_run,
{
    Config {
        server_url: clone_opt(&c.server_url),
        server_token: Some(v),
        device_id: clone_opt(&c.device_id),
        device_location: clone_opt(&c.device_location),
        device_friendly_name: clone_opt(&c.device_friendly_name),
        first_run: c.first_run,
    }
}

/// Copies an optional string, value for value.
fn clone_opt(o: &Option<String>) -> (r: Option<String>)
    ensures
        r == o,
{
    match o {
        Some(s) => Some(s.clone()),
        None => None,
    }
}

} // verus!
