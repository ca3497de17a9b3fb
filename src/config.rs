//! Addresses the two servers listen on and the store they talk to.
use crate::decimal::decimal;
use vstd::prelude::*;

verus! {

/// Where the servers are reached.
pub struct AppConfig {
    pub url: String,
    pub editor_port: u16,
    pub read_only_port: u16,
}

/// Where the relational store is reached.
pub struct DaoConfig {
    pub url: String,
}

pub struct Config {
    pub app: AppConfig,
    pub dao: DaoConfig,
}

/// `host:port`, the form a listener binds to.
pub open spec fn address(host: Seq<char>, port: u16) -> Seq<char> {
    host + seq![':'] + decimal(port as nat)
}

/// Relies on `format!` writing a `u16` in plain decimal, as `Display` for
/// integers is documented to do.
#[verifier::external_body]
fn format_address(host: &str, port: u16) -> (r: String)
    ensures
        r@ == address(host@, port),
{
    format!("{0}:{1}", host, port)
}

impl Config {
    pub fn new(url: String, read_only_port: u16, editor_port: u16, database_url: String) -> (r:
        Config)
        ensures
            r.app.url@ == url@,
            r.app.read_only_port == read_only_port,
            r.app.editor_port == editor_port,
            r.dao.url@ == database_url@,
    {
        Config {
            app: AppConfig { url, editor_port, read_only_port },
            dao: DaoConfig { url: database_url },
        }
    }

    /// The address of the read-only server.
    pub fn app_url(&self) -> (r: String)
        ensures
            r@ == address(self.app.url@, self.app.read_only_port),
    {
        format_address(self.app.url.as_str(), self.app.read_only_port)
    }

    /// The address of the editor server.
    pub fn editor_url(&self) -> (r: String)
        ensures
            r@ == address(self.app.url@, self.app.editor_port),
    {
        format_address(self.app.url.as_str(), self.app.editor_port)
    }

    pub fn database_url(&self) -> (r: String)
        ensures
            r@ == self.dao.url@,
    {
        self.dao.url.clone()
    }
}

} // verus!
