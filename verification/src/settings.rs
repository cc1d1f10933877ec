//! The resolved configuration the embedding process hands to the engine,
//! with the default value of each optional parameter.

use vstd::prelude::*;
use vstd::string::*;

verus! {

/// The configuration parameters of one running instance.
pub struct Config {
    /// The bearer token callers must present.
    pub authorization: String,
    /// Directory path under which working copies live.
    pub github_source: String,
    /// Enable debug-level logging.
    pub debug: bool,
    /// Log in UTC rather than the local timezone.
    pub utc_logging: bool,
    /// Host name or address to bind the server to.
    pub server_host: String,
    /// Port number to bind the server to.
    pub server_port: u16,
    /// Number of worker threads to serve with.
    pub workers: usize,
    /// Maximum number of concurrent connections.
    pub max_connections: usize,
    /// Largest request body accepted, in bytes.
    pub max_payload_size: usize,
    /// Websites to allow in the cross-origin configuration.
    pub websites: Vec<String>,
    /// Path of the private key file of the TLS certificate.
    pub key_file: String,
    /// Path of the full certificate chain file.
    pub cert_file: String,
}

/// Default for the debug flag: off.
pub fn default_debug() -> (r: bool)
    ensures
        !r,
{
    false
}

/// Default for UTC logging: on.
pub fn default_utc_logging() -> (r: bool)
    ensures
        r,
{
    true
}

/// Default for either TLS file path: empty, meaning no TLS.
pub fn default_ssl() -> (r: String)
    ensures
        r@.len() == 0,
{
    String::new()
}

/// Default server host name; resolving it to an address is the embedding
/// process's concern.
pub fn default_server_host() -> (r: String)
    ensures
        r@ == "localhost"@,
{
    ("localhost").to_owned()
}

/// Default server port.
pub fn default_server_port() -> (r: u16)
    ensures
        r == 8000,
{
    8000
}

/// Default maximum number of concurrent connections.
pub fn default_max_connections() -> (r: usize)
    ensures
        r == 3,
{
    3
}

/// Default maximum payload size: one hundred binary megabytes.
pub fn default_max_payload_size() -> (r: usize)
    ensures
        r == 104857600,
{
    100 * 1024 * 1024
}

/// Default cross-origin website list: none.
pub fn default_websites() -> (r: Vec<String>)
    ensures
        r@.len() == 0,
{
    Vec::new()
}

} // verus!
