//! The settings of the middleware and their defaults.

use vstd::prelude::*;
use vstd::string::*;

verus! {

/// The settings of the middleware.
#[derive(Debug)]
pub struct Config {
    /// Base URL of the engine, such as `http://localhost:5678`.
    pub n8n_api_url: String,
    /// Key sent with every call of the engine's management API.
    pub n8n_api_key: String,
    /// Address on which the middleware listens.
    pub listen_addr: String,
    /// Seconds between two trigger refreshes.
    pub refresh_interval_secs: u64,
    /// Path segment of the engine's production webhooks.
    pub n8n_endpoint_webhook: String,
    /// Path segment of the engine's test webhooks.
    pub n8n_endpoint_webhook_test: String,
    /// Secret shared with GitHub for signing inbound deliveries.
    pub github_webhook_secret: Option<String>,
    /// Where the store is kept on disk.
    pub database_path: String,
}

/// The view of a `Config`.
pub struct ConfigModel {
    pub n8n_api_url: Seq<char>,
    pub n8n_api_key: Seq<char>,
    pub listen_addr: Seq<char>,
    pub refresh_interval_secs: u64,
    pub n8n_endpoint_webhook: Seq<char>,
    pub n8n_endpoint_webhook_test: Seq<char>,
    pub github_webhook_secret: Option<Seq<char>>,
    pub database_path: Seq<char>,
}

impl View for Config {
    type V = ConfigModel;

    open spec fn view(&self) -> ConfigModel {
        ConfigModel {
            n8n_api_url: self.n8n_api_url@,
            n8n_api_key: self.n8n_api_key@,
            listen_addr: self.listen_addr@,
            refresh_interval_secs: self.refresh_interval_secs,
            n8n_endpoint_webhook: self.n8n_endpoint_webhook@,
            n8n_endpoint_webhook_test: self.n8n_endpoint_webhook_test@,
            github_webhook_secret: self.github_webhook_secret.deep_view(),
            database_path: self.database_path@,
        }
    }
}

impl Clone for Config {
    fn clone(&self) -> (r: Self)
        ensures
            r@ == self@,
    {
        Config {
            n8n_api_url: self.n8n_api_url.clone(),
            n8n_api_key: self.n8n_api_key.clone(),
            listen_addr: self.listen_addr.clone(),
            refresh_interval_secs: self.refresh_interval_secs,
            n8n_endpoint_webhook: self.n8n_endpoint_webhook.clone(),
            n8n_endpoint_webhook_test: self.n8n_endpoint_webhook_test.clone(),
            github_webhook_secret: self.github_webhook_secret.clone(),
            database_path: self.database_path.clone(),
        }
    }
}

/// The engine's base URL where none is set.
pub fn default_n8n_api_url() -> (r: String)
    ensures
        r@ == "http://localhost:5678"@,
{
    "http://localhost:5678".to_string()
}

/// The listen address where none is set.
pub fn default_listen_addr() -> (r: String)
    ensures
        r@ == "0.0.0.0:3000"@,
{
    "0.0.0.0:3000".to_string()
}

/// The seconds between two refreshes where none are set.
pub fn default_refresh_interval() -> (r: u64)
    ensures
        r == 60,
{
    60
}

/// The path segment of production webhooks where none is set.
pub fn default_endpoint_webhook() -> (r: String)
    ensures
        r@ == "webhook"@,
{
    "webhook".to_string()
}

/// The path segment of test webhooks where none is set.
pub fn default_endpoint_webhook_test() -> (r: String)
    ensures
        r@ == "webhook-test"@,
{
    "webhook-test".to_string()
}

/// The path of the store where none is set.
pub fn default_database_path() -> (r: String)
    ensures
        r@ == "unihook.db"@,
{
    "unihook.db".to_string()
}

/// What the environment may set; `None` for what it leaves out.
#[derive(Debug)]
pub struct Settings {
    pub n8n_api_url: Option<String>,
    pub n8n_api_key: Option<String>,
    pub listen_addr: Option<String>,
    pub refresh_interval_secs: Option<u64>,
    pub n8n_endpoint_webhook: Option<String>,
    pub n8n_endpoint_webhook_test: Option<String>,
    pub github_webhook_secret: Option<String>,
    pub database_path: Option<String>,
}

/// `value` where it is set, else `default`.
pub open spec fn or_default(value: Option<Seq<char>>, default: Seq<char>) -> Seq<char> {
    match value {
        Some(v) => v,
        None => default,
    }
}

/// The configuration that settings give: every setting but the API key has
/// a default, and without the API key there is no configuration.
pub open spec fn config_of(
    n8n_api_url: Option<Seq<char>>,
    n8n_api_key: Option<Seq<char>>,
    listen_addr: Option<Seq<char>>,
    refresh_interval_secs: Option<u64>,
    n8n_endpoint_webhook: Option<Seq<char>>,
    n8n_endpoint_webhook_test: Option<Seq<char>>,
    github_webhook_secret: Option<Seq<char>>,
    database_path: Option<Seq<char>>,
) -> Option<ConfigModel> {
    match n8n_api_key {
        None => None,
        Some(key) => Some(
            ConfigModel {
                n8n_api_url: or_default(n8n_api_url, "http://localhost:5678"@),
                n8n_api_key: key,
                listen_addr: or_default(listen_addr, "0.0.0.0:3000"@),
                refresh_interval_secs: match refresh_interval_secs {
                    Some(n) => n,
                    None => 60,
                },
                n8n_endpoint_webhook: or_default(n8n_endpoint_webhook, "webhook"@),
                n8n_endpoint_webhook_test: or_default(n8n_endpoint_webhook_test, "webhook-test"@),
                github_webhook_secret,
                database_path: or_default(database_path, "unihook.db"@),
            },
        ),
    }
}

impl Config {
    /// The configuration that `settings` give; `None` without an API key.
    pub fn from_settings(settings: Settings) -> (r: Option<Config>)
        ensures
            match r {
                Some(c) => Some(c@),
                None => None,
            } == config_of(
                settings.n8n_api_url.deep_view(),
                settings.n8n_api_key.deep_view(),
                settings.listen_addr.deep_view(),
                settings.refresh_interval_secs,
                settings.n8n_endpoint_webhook.deep_view(),
                settings.n8n_endpoint_webhook_test.deep_view(),
                settings.github_webhook_secret.deep_view(),
                settings.database_path.deep_view(),
            ),
    {
        let n8n_api_key = match settings.n8n_api_key {
            Some(key) => key,
            None => { return None; },
        };
        Some(
            Config {
                n8n_api_url: match settings.n8n_api_url {
                    Some(v) => v,
                    None => default_n8n_api_url(),
                },
                n8n_api_key,
                listen_addr: match settings.listen_addr {
                    Some(v) => v,
                    None => default_listen_addr(),
                },
                refresh_interval_secs: match settings.refresh_interval_secs {
                    Some(v) => v,
                    None => default_refresh_interval(),
                },
                n8n_endpoint_webhook: match settings.n8n_endpoint_webhook {
                    Some(v) => v,
                    None => default_endpoint_webhook(),
                },
                n8n_endpoint_webhook_test: match settings.n8n_endpoint_webhook_test {
                    Some(v) => v,
                    None => default_endpoint_webhook_test(),
                },
                github_webhook_secret: settings.github_webhook_secret,
                database_path: match settings.database_path {
                    Some(v) => v,
                    None => default_database_path(),
                },
            },
        )
    }
}

} // verus!
