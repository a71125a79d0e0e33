use vstd::prelude::*;

verus! {

/// Errors of the tunnel client.
#[derive(Debug)]
pub enum CftError {
    /// No API token or account is configured.
    ApiNotConfigured,
    /// No DNS zone is configured.
    ZoneNotConfigured,
    /// The API answered with an error.
    CloudflareApi { code: u32, message: String },
    /// The tunnel configuration file is missing.
    ConfigNotFound { path: String },
    /// The tunnel daemon is not installed.
    CloudflaredNotFound,
    /// A service-manager command failed.
    ServiceError(String),
    /// The user cancelled.
    Cancelled,
    /// The user gave input that cannot be used.
    InvalidInput(String),
}

/// Stored credentials and preferences.
#[derive(Debug)]
pub struct ApiConfig {
    pub api_token: Option<String>,
    pub account_id: Option<String>,
    pub zone_id: Option<String>,
    pub zone_name: Option<String>,
    pub language: Option<String>,
}

impl Default for ApiConfig {
    fn default() -> (r: ApiConfig)
        ensures
            r.api_token is None,
            r.account_id is None,
            r.zone_id is None,
            r.zone_name is None,
            r.language is None,
    {
        ApiConfig { api_token: None, account_id: None, zone_id: None, zone_name: None, language: None }
    }
}

/// How a token is shown: its first and last four characters around
/// `***...***` when it is longer than eight characters, `****` when shorter,
/// `not set` when there is none.
pub open spec fn masked(token: Option<Seq<char>>) -> Seq<char> {
    match token {
        Some(t) => if t.len() > 8 {
            t.take(4) + "***...***"@ + t.skip(t.len() - 4)
        } else {
            "****"@
        },
        None => "not set"@,
    }
}

/// The configuration holds both a token and an account.
pub open spec fn api_ready(c: ApiConfig) -> bool {
    c.api_token is Some && c.account_id is Some
}

impl ApiConfig {
    /// The token as it may be shown on screen.
    pub fn masked_token(&self) -> (r: String)
        ensures
            r@ == masked(
                match self.api_token {
                    Some(t) => Some(t@),
                    None => None,
                },
            ),
    {
        match &self.api_token {
            Some(t) => {
                let n = t.as_str().unicode_len();
                if n > 8 {
                    let mut r = String::from_str(t.as_str().substring_char(0, 4));
                    r.append("***...***");
                    r.append(t.as_str().substring_char(n - 4, n));
                    r
                } else {
                    String::from_str("****")
                }
            },
            None => String::from_str("not set"),
        }
    }
}

/// Whether a loaded configuration holds both a token and an account; no
/// configuration at all counts as not configured.
pub fn is_api_configured(loaded: &Option<ApiConfig>) -> (r: bool)
    ensures
        r == (*loaded matches Some(c) && api_ready(c)),
{
    match loaded {
        Some(c) => c.api_token.is_some() && c.account_id.is_some(),
        None => false,
    }
}

/// The loaded configuration when it holds a token and an account.
pub fn require_api_config(loaded: Option<ApiConfig>) -> (r: Result<ApiConfig, CftError>)
    ensures
        r is Ok <==> (loaded matches Some(c) && api_ready(c)),
        r matches Ok(c) ==> loaded == Some(c),
        r matches Err(e) ==> e is ApiNotConfigured,
{
    match loaded {
        Some(c) => {
            if c.api_token.is_some() && c.account_id.is_some() {
                Ok(c)
            } else {
                Err(CftError::ApiNotConfigured)
            }
        },
        None => Err(CftError::ApiNotConfigured),
    }
}

/// The loaded configuration when it also names a DNS zone.
pub fn require_zone_config(loaded: Option<ApiConfig>) -> (r: Result<ApiConfig, CftError>)
    ensures
        r is Ok <==> (loaded matches Some(c) && api_ready(c) && c.zone_id is Some),
        r matches Ok(c) ==> loaded == Some(c),
        r matches Err(e) ==> (if (loaded matches Some(c) && api_ready(c)) {
            e is ZoneNotConfigured
        } else {
            e is ApiNotConfigured
        }),
{
    let c = require_api_config(loaded)?;
    if c.zone_id.is_none() {
        return Err(CftError::ZoneNotConfigured);
    }
    Ok(c)
}

} // verus!
