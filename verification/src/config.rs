//! The configuration of a run: the endpoint to query.

use vstd::prelude::*;

verus! {

/// The key of the one required entry of the configuration document.
pub const RPC_URL_KEY: &'static str = "base_rpc_url";

/// The configuration of a run. It is read once and never changed.
#[derive(Clone, Debug, PartialEq, Eq)]
pub struct Config {
    pub base_rpc_url: String,
}

/// The string that stands under `key` at the top level of the TOML text
/// `document`, where the text is a TOML document and holds a string there.
pub uninterp spec fn toml_string_at(document: Seq<char>, key: Seq<char>) -> Option<Seq<char>>;

/// The text of an optional string.
pub open spec fn text_of(value: Option<String>) -> Option<Seq<char>> {
    match value {
        Some(text) => Some(text@),
        None => None,
    }
}

/// The URL of an optional configuration.
pub open spec fn url_of(config: Option<Config>) -> Option<Seq<char>> {
    match config {
        Some(config) => Some(config.base_rpc_url@),
        None => None,
    }
}

/// The parser of the toml crate on the whole document, then the entry under
/// `key` in the table it gives, taken where it is a string.
#[verifier::external_body]
fn toml_string(document: &str, key: &str) -> (value: Option<String>)
    ensures
        text_of(value) == toml_string_at(document@, key@),
{
    let parsed = document.parse::<toml::Value>().ok()?;
    parsed.get(key)?.as_str().map(|text| text.to_owned())
}

impl Config {
    /// The configuration with the given URL, where there is one. Nothing
    /// stands in for a URL that is missing.
    pub fn from_url(url: Option<String>) -> (config: Option<Config>)
        ensures
            url_of(config) == text_of(url),
    {
        match url {
            Some(base_rpc_url) => Some(Config { base_rpc_url }),
            None => None,
        }
    }

    /// Reads the configuration from the text of its file. There is none
    /// where the text is no TOML document or holds no string under the key
    /// of the URL.
    pub fn parse(document: &str) -> (config: Option<Config>)
        ensures
            url_of(config) == toml_string_at(document@, RPC_URL_KEY@),
    {
        Config::from_url(toml_string(document, RPC_URL_KEY))
    }
}

} // verus!
