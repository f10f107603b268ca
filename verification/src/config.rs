//! The client's configuration: bearer token, region and cache endpoint,
//! as read from `~/.corelink/config.toml` and overridden by flags or
//! environment variables.

use vstd::prelude::*;

verus! {

/// Default cache endpoint when none is configured.
pub const DEFAULT_ENDPOINT: &'static str = "https://corelink-api.humangr.com";

/// Default region selector.
pub const DEFAULT_REGION: &'static str = "auto";

/// Resolved CoreLink CLI config.
#[derive(Debug, Clone, PartialEq, Eq)]
pub struct Config {
    /// Bearer token issued by the CoreLink control-plane.
    pub token: String,
    /// Region selector (`auto` lets the server pick).
    pub region: String,
    /// Cache endpoint URL.
    pub endpoint: String,
}

/// The text of each field of a configuration.
pub struct ConfigView {
    pub token: Seq<char>,
    pub region: Seq<char>,
    pub endpoint: Seq<char>,
}

impl View for Config {
    type V = ConfigView;

    open spec fn view(&self) -> ConfigView {
        ConfigView { token: self.token@, region: self.region@, endpoint: self.endpoint@ }
    }
}

/// Why no configuration could be had.
#[derive(Debug)]
pub enum ConfigError {
    /// No token remained once the overrides were applied.
    MissingToken,
    /// The configuration file holds an empty `token`.
    EmptyToken,
    /// The configuration file could not be read or parsed; the text says why.
    Unavailable(String),
}

impl ConfigError {
    /// The message shown for this error.
    pub fn message(&self) -> (s: String)
        ensures
            s@ == match self {
                ConfigError::MissingToken => missing_token_message(),
                ConfigError::EmptyToken => "config.toml has empty `token`"@,
                ConfigError::Unavailable(m) => m@,
            },
    {
        match self {
            ConfigError::MissingToken => String::from_str(
                "no token found — pass --token, set CORELINK_TOKEN, or add `token` to ~/.corelink/config.toml",
            ),
            ConfigError::EmptyToken => String::from_str("config.toml has empty `token`"),
            ConfigError::Unavailable(m) => m.clone(),
        }
    }
}

/// The message of a missing token.
pub open spec fn missing_token_message() -> Seq<char> {
    "no token found — pass --token, set CORELINK_TOKEN, or add `token` to ~/.corelink/config.toml"@
}

/// The default region, `auto`.
pub fn default_region() -> (s: String)
    ensures
        s@ == DEFAULT_REGION@,
{
    String::from_str(DEFAULT_REGION)
}

/// The default cache endpoint.
pub fn default_endpoint() -> (s: String)
    ensures
        s@ == DEFAULT_ENDPOINT@,
{
    String::from_str(DEFAULT_ENDPOINT)
}

/// The text of an optional string.
pub open spec fn opt_view(o: Option<String>) -> Option<Seq<char>> {
    match o {
        Some(s) => Some(s@),
        None => None,
    }
}

/// The configuration that stands in for a file that cannot be loaded when
/// both the endpoint and the token are given: no token, the default region
/// and endpoint.
pub open spec fn fallback_view() -> ConfigView {
    ConfigView { token: Seq::empty(), region: DEFAULT_REGION@, endpoint: DEFAULT_ENDPOINT@ }
}

/// `base` with the given endpoint and token in place of its own.
pub open spec fn merged(base: ConfigView, endpoint: Option<Seq<char>>, token: Option<Seq<char>>) -> ConfigView {
    ConfigView {
        token: match token {
            Some(t) => t,
            None => base.token,
        },
        region: base.region,
        endpoint: match endpoint {
            Some(e) => e,
            None => base.endpoint,
        },
    }
}

/// `r` is what overriding `base` gives: the merged configuration, or the
/// missing-token error where the merged token is empty.
pub open spec fn settles(
    r: Result<Config, ConfigError>,
    base: ConfigView,
    endpoint: Option<Seq<char>>,
    token: Option<Seq<char>>,
) -> bool {
    let m = merged(base, endpoint, token);
    if m.token.len() == 0 {
        r matches Err(ConfigError::MissingToken)
    } else {
        r matches Ok(c) && c@ == m
    }
}

impl Config {
    /// Load config, then apply optional overrides from CLI flags or env vars.
    ///
    /// `load` reads the configuration file, and the overrides are applied to
    /// what it gives.  When both the endpoint and the token are given, the
    /// file is not required: where it cannot be loaded, the defaults (no
    /// token, the default region and endpoint) stand in for it.  Otherwise
    /// an error from `load` is passed on.  A configuration left without a
    /// token is refused.
    pub fn load_with_overrides<F: FnOnce() -> Result<Config, ConfigError>>(
        endpoint: Option<String>,
        token: Option<String>,
        load: F,
    ) -> (r: Result<Config, ConfigError>)
        requires
            call_requires(load, ()),
        ensures
            exists|b: Result<Config, ConfigError>|
                #[trigger] call_ensures(load, (), b) && match b {
                    Ok(c) => settles(r, c@, opt_view(endpoint), opt_view(token)),
                    Err(e) => if endpoint is Some && token is Some {
                        settles(r, fallback_view(), opt_view(endpoint), opt_view(token))
                    } else {
                        r matches Err(e2) && e2 == e
                    },
                },
    {
        let both = endpoint.is_some() && token.is_some();
        let ghost eo = opt_view(endpoint);
        let ghost to = opt_view(token);
        let loaded = load();
        let ghost got = loaded;
        let mut cfg = match loaded {
            Ok(c) => c,
            Err(e) => {
                if both {
                    Config { token: String::new(), region: default_region(), endpoint: default_endpoint() }
                } else {
                    return Err(e);
                }
            },
        };
        let ghost base = cfg@;
        if let Some(ep) = endpoint {
            cfg.endpoint = ep;
        }
        if let Some(tok) = token {
            cfg.token = tok;
        }
        assert(cfg@ == merged(base, eo, to));
        assert(call_ensures(load, (), got));
        if cfg.token.as_str().is_empty() {
            return Err(ConfigError::MissingToken);
        }
        Ok(cfg)
    }

    /// Refuses a configuration read from the file whose token is empty.
    pub fn require_token(cfg: Config) -> (r: Result<Config, ConfigError>)
        ensures
            cfg.token@.len() == 0 ==> r matches Err(ConfigError::EmptyToken),
            cfg.token@.len() != 0 ==> r == Ok::<Config, ConfigError>(cfg),
    {
        if cfg.token.as_str().is_empty() {
            Err(ConfigError::EmptyToken)
        } else {
            Ok(cfg)
        }
    }
}

} // verus!
