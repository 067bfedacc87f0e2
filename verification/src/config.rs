//! Configuration and authentication-token shapes.

use vstd::prelude::*;

verus! {

/// The service configuration, as the environment provides it.
#[derive(Debug)]
pub struct Config {
    pub database_url: String,
    pub jwt_secret: String,
    pub jwt_expires_in: String,
    pub server_host: String,
    pub server_port: u16,
    pub ws_path: String,
    pub plugin_dir: String,
}

/// The claims carried by an authentication token.
#[derive(Debug, Clone)]
pub struct Claims {
    pub sub: String,
    pub username: String,
    pub role: String,
    pub exp: u64,
}

/// The shared state token verification reads: the signing secret.
#[derive(Debug, Clone)]
pub struct AuthState {
    pub secret: String,
}

} // verus!
