//! Provider configuration.
use vstd::prelude::*;
use crate::client::{AuthView, ClientView, BASE_URL};
use crate::entries::Entries;
use crate::error::{ErrorView, ProviderError};
use crate::field_value;
use crate::field_value::{FieldValueView, ResolvedFieldValue};
use crate::model;

verus! {

/// Configuration fields by name.
pub type ResolvedConfig = Entries<ResolvedFieldValue>;

/// The configuration that talking to Porkbun takes.
#[derive(Debug, PartialEq, Eq)]
pub struct PorkbunConfig {
    pub domain: String,
    pub api_key: String,
    pub secret_api_key: String,
    /// Where the API is served.
    pub base_url: String,
}

/// What a configuration says.
pub struct ConfigView {
    pub domain: Seq<char>,
    pub api_key: Seq<char>,
    pub secret_api_key: Seq<char>,
    pub base_url: Seq<char>,
}

impl View for PorkbunConfig {
    type V = ConfigView;

    open spec fn view(&self) -> ConfigView {
        ConfigView {
            domain: self.domain@,
            api_key: self.api_key@,
            secret_api_key: self.secret_api_key@,
            base_url: self.base_url@,
        }
    }
}

/// The value of a field that must be there and must be managed.
pub open spec fn required(
    config: Seq<(Seq<char>, FieldValueView)>,
    field: Seq<char>,
) -> Result<Seq<char>, ErrorView> {
    match model::lookup(config, field) {
        None => Err(ErrorView::MissingConfig { field }),
        Some(value) => match field_value::value_of(value) {
            None => Err(ErrorView::UnmanagedConfig { field }),
            Some(text) => Ok(text),
        },
    }
}

/// The base URL that a configuration names, else the public one.
pub open spec fn base_url(config: Seq<(Seq<char>, FieldValueView)>) -> Seq<char> {
    match required(config, "base_url"@) {
        Ok(url) => url,
        Err(_) => BASE_URL@,
    }
}

/// The configuration that the fields make up; where one that is required fails,
/// the failure of the first in the order domain, key, secret key.
pub open spec fn resolved(config: Seq<(Seq<char>, FieldValueView)>) -> Result<
    ConfigView,
    ErrorView,
> {
    match (
        required(config, "domain"@),
        required(config, "api_key"@),
        required(config, "secret_api_key"@),
    ) {
        (Err(e), _, _) => Err(e),
        (_, Err(e), _) => Err(e),
        (_, _, Err(e)) => Err(e),
        (Ok(domain), Ok(api_key), Ok(secret_api_key)) => Ok(
            ConfigView { domain, api_key, secret_api_key, base_url: base_url(config) },
        ),
    }
}

/// The client of a configuration.
pub open spec fn client_of(config: ConfigView) -> ClientView {
    ClientView {
        base_url: config.base_url,
        auth: AuthView { apikey: config.api_key, secretapikey: config.secret_api_key },
    }
}

impl PorkbunConfig {
    /// Picks the configuration out of the resolved fields.
    pub fn from_resolved_config(config: &ResolvedConfig) -> (r: Result<
        PorkbunConfig,
        ProviderError,
    >)
        ensures
            model::result_view(r) == resolved(config@),
    {
        let domain = match required_field(config, "domain") {
            Ok(value) => value,
            Err(e) => {
                return Err(e);
            },
        };
        let api_key = match required_field(config, "api_key") {
            Ok(value) => value,
            Err(e) => {
                return Err(e);
            },
        };
        let secret_api_key = match required_field(config, "secret_api_key") {
            Ok(value) => value,
            Err(e) => {
                return Err(e);
            },
        };
        let base_url = match required_field(config, "base_url") {
            Ok(value) => value,
            Err(_) => BASE_URL.to_string(),
        };
        Ok(PorkbunConfig { domain, api_key, secret_api_key, base_url })
    }
}

fn required_field(config: &ResolvedConfig, field: &str) -> (r: Result<String, ProviderError>)
    ensures
        model::result_view(r) == required(config@, field@),
{
    match config.get(field) {
        None => Err(ProviderError::MissingConfig { field: field.to_string() }),
        Some(value) => match value.value() {
            None => Err(ProviderError::UnmanagedConfig { field: field.to_string() }),
            Some(text) => Ok(text),
        },
    }
}

} // verus!
