use vstd::prelude::*;

verus! {

/// Process-level settings that the session logic reads.
#[derive(Clone, Debug)]
pub struct Config {
    pub auth: Auth,
    pub tls: Tls,
}

/// Shared bearer token that every login must present.
#[derive(Clone, Debug)]
pub struct Auth {
    pub enable_bearer: bool,
    pub bearer: String,
}

/// Certificate and key of the transports' TLS, when it is on.
#[derive(Clone, Debug)]
pub struct Tls {
    pub enable: bool,
    pub cert_file_path: String,
    pub key_file_path: String,
}

} // verus!
