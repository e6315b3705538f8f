//! Application configuration: endpoints, markets, storage paths and the
//! secrets that authenticate the account.
use crate::text::{join2, owned};
use vstd::prelude::*;
use vstd::string::StrSliceExecFns;

verus! {

#[derive(Debug, Clone, PartialEq, Eq)]
pub enum ConfigError {
    /// The configuration files could not be read or decoded.
    LoadError(String),
    /// A required environment variable is missing or empty.
    EnvError(String),
    IoError(String),
}

/// The text of a configuration error.
pub open spec fn config_error_text(e: ConfigError) -> Seq<char> {
    match e {
        ConfigError::LoadError(m) => "Failed to load config: "@ + m@,
        ConfigError::EnvError(m) => "Environment variable error: "@ + m@,
        ConfigError::IoError(m) => "IO error: "@ + m@,
    }
}

impl ConfigError {
    /// The text of the error.
    pub fn text(&self) -> (t: String)
        ensures
            t@ == config_error_text(*self),
    {
        match self {
            ConfigError::LoadError(m) => join2("Failed to load config: ", m.as_str()),
            ConfigError::EnvError(m) => join2("Environment variable error: ", m.as_str()),
            ConfigError::IoError(m) => join2("IO error: ", m.as_str()),
        }
    }
}

/// Deployment the bot talks to.
#[derive(Debug, Clone, Copy, PartialEq, Eq, Structural)]
pub enum Environment {
    Staging,
    Prod,
}

impl Default for Environment {
    fn default() -> (e: Self)
        ensures
            e == Environment::Staging,
    {
        Environment::Staging
    }
}

impl Environment {
    /// The lowercase name of the environment.
    pub fn as_str(&self) -> (s: &'static str)
        ensures
            s@ == (match *self {
                Environment::Staging => "staging"@,
                Environment::Prod => "prod"@,
            }),
    {
        match self {
            Environment::Staging => "staging",
            Environment::Prod => "prod",
        }
    }
}

/// REST endpoints.
#[derive(Debug, Clone)]
pub struct RestConfig {
    pub exchange_url: String,
    pub trade_url: String,
    pub auth_url: String,
}

/// WebSocket endpoints.
#[derive(Debug, Clone)]
pub struct WsConfig {
    pub market_url: String,
    pub account_url: String,
}

/// Markets to trade.
#[derive(Debug, Clone)]
pub struct MarketsConfig {
    pub symbols: Vec<String>,
}

/// Where data is stored.
#[derive(Debug, Clone)]
pub struct StorageConfig {
    pub db_path: String,
    pub raw_path: String,
}

/// Wallet secrets.
#[derive(Debug, Clone)]
pub struct AuthSecrets {
    /// Private key, in hex.
    pub private_key: String,
    /// Account address, where it is not derived from the key.
    pub account_address: Option<String>,
}

#[derive(Debug, Clone)]
pub struct EnvConfig {
    pub name: Environment,
}

/// The application's configuration.
#[derive(Debug, Clone)]
pub struct AppConfig {
    pub env: EnvConfig,
    pub rest: RestConfig,
    pub ws: WsConfig,
    pub markets: MarketsConfig,
    pub storage: StorageConfig,
}

/// A plan of orders, as configured.
#[derive(Debug, Clone)]
pub struct PlanConfig {
    pub orders: Vec<PlanOrderConfig>,
}

/// One order of a plan, as configured (text fields as written).
#[derive(Debug, Clone)]
pub struct PlanOrderConfig {
    pub id: String,
    pub market: String,
    pub side: String,
    pub order_type: String,
    pub price_mode: String,
    pub price_bps: Option<String>,
    pub price_e9: Option<String>,
    pub size_mode: String,
    pub quantity: Option<String>,
    pub tif: String,
    pub post_only: bool,
    pub reduce_only: bool,
    pub cancel_after_ms: Option<u64>,
}

/// Strategy settings file.
#[derive(Debug, Clone)]
pub struct StrategyConfig {
    pub strategy: StrategySettingsConfig,
}

#[derive(Debug, Clone)]
pub struct StrategySettingsConfig {
    pub id: String,
    pub enabled: bool,
}

/// The error is an environment error with the message `m`.
pub open spec fn is_env_error(e: ConfigError, m: Seq<char>) -> bool {
    e matches ConfigError::EnvError(s) && s@ == m
}

impl AppConfig {
    /// The secrets, from the values of the variables `BLUEFIN_PRIVATE_KEY`
    /// and `BLUEFIN_ACCOUNT_ADDRESS` (`None` where unset).  The key is
    /// required and must not be empty; an empty address counts as unset.
    pub fn secrets_from(private_key: Option<String>, account_address: Option<String>) -> (r: Result<
        AuthSecrets,
        ConfigError,
    >)
        ensures
            private_key is None ==> r is Err && is_env_error(
                r->Err_0,
                "BLUEFIN_PRIVATE_KEY not set"@,
            ),
            private_key matches Some(k) && k@.len() == 0 ==> r is Err && is_env_error(
                r->Err_0,
                "BLUEFIN_PRIVATE_KEY is empty"@,
            ),
            r is Ok <==> (private_key matches Some(k) && k@.len() > 0),
            r is Ok ==> r->Ok_0.private_key == private_key->0 && r->Ok_0.account_address == (
            match account_address {
                Some(a) => if a@.len() > 0 {
                    Some(a)
                } else {
                    None
                },
                None => None,
            }),
    {
        let private_key = match private_key {
            Some(k) => k,
            None => {
                return Err(ConfigError::EnvError(owned("BLUEFIN_PRIVATE_KEY not set")));
            },
        };
        if private_key.as_str().unicode_len() == 0 {
            return Err(ConfigError::EnvError(owned("BLUEFIN_PRIVATE_KEY is empty")));
        }
        let account_address = match account_address {
            Some(a) => if a.as_str().unicode_len() > 0 {
                Some(a)
            } else {
                None
            },
            None => None,
        };
        Ok(AuthSecrets { private_key, account_address })
    }
}

} // verus!
