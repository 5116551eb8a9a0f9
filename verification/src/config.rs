//! Configuration data: the catalog credentials a caller supplies. Loading
//! and saving the configuration file is the surrounding program's work.

use vstd::prelude::*;

verus! {

/// Credentials for the authenticated catalog.
#[derive(Clone, Debug)]
pub struct SpotifyConfig {
    pub client_id: Option<String>,
    pub client_secret: Option<String>,
}

impl Default for SpotifyConfig {
    /// No credentials.
    fn default() -> (r: SpotifyConfig)
        ensures
            r.client_id is None,
            r.client_secret is None,
    {
        SpotifyConfig { client_id: None, client_secret: None }
    }
}

/// Whether both credentials are present and non-empty.
pub open spec fn spec_is_configured(c: &SpotifyConfig) -> bool {
    &&& match c.client_id {
        Some(id) => id@.len() > 0,
        None => false,
    }
    &&& match c.client_secret {
        Some(secret) => secret@.len() > 0,
        None => false,
    }
}

impl SpotifyConfig {
    /// Both credentials are present and non-empty, so that an authenticated
    /// catalog client can be built.
    pub fn is_configured(&self) -> (r: bool)
        ensures
            r == spec_is_configured(self),
    {
        let id_ok = match &self.client_id {
            Some(id) => !id.as_str().is_empty(),
            None => false,
        };
        let secret_ok = match &self.client_secret {
            Some(secret) => !secret.as_str().is_empty(),
            None => false,
        };
        id_ok && secret_ok
    }
}

/// The whole configuration.
#[derive(Clone, Debug)]
pub struct Config {
    pub spotify: SpotifyConfig,
}

impl Default for Config {
    /// No credentials.
    fn default() -> (r: Config)
        ensures
            r.spotify.client_id is None,
            r.spotify.client_secret is None,
    {
        Config { spotify: SpotifyConfig { client_id: None, client_secret: None } }
    }
}

} // verus!
