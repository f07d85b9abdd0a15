//! How a server is configured: where it listens, and its TLS settings.

use vstd::prelude::*;
use vstd::string::StringExecFns;
use crate::http2::settings::SettingsParameter;

verus! {

/// Where the server listens, whether it uses TLS, and the HTTP/2 settings
/// it starts connections with.
pub struct ServerSettings {
    host: String,
    port: u16,
    security: Option<SecuritySettings>,
    http2_settings: Option<Vec<SettingsParameter>>,
}

/// The certificate the server presents, and its password.
pub struct SecuritySettings {
    ssl_cert_path: String,
    ssl_cert_pass: String,
}

impl SecuritySettings {
    pub closed spec fn spec_cert_path(&self) -> Seq<char> {
        self.ssl_cert_path@
    }

    pub closed spec fn spec_cert_pass(&self) -> Seq<char> {
        self.ssl_cert_pass@
    }

    /// The certificate `tests/cert.pfx` with password `asdf`.
    pub fn default() -> (r: Self)
        ensures
            r.spec_cert_path() == "tests/cert.pfx"@,
            r.spec_cert_pass() == "asdf"@,
    {
        SecuritySettings {
            ssl_cert_path: String::from_str("tests/cert.pfx"),
            ssl_cert_pass: String::from_str("asdf"),
        }
    }

    pub fn get_ssl_cert_path(&self) -> (r: &str)
        ensures
            r@ == self.spec_cert_path(),
    {
        self.ssl_cert_path.as_str()
    }

    pub fn set_ssl_cert_path(&mut self, ssl_cert_path: String)
        ensures
            final(self).spec_cert_path() == ssl_cert_path@,
            final(self).spec_cert_pass() == old(self).spec_cert_pass(),
    {
        self.ssl_cert_path = ssl_cert_path;
    }

    pub fn get_ssl_cert_pass(&self) -> (r: &str)
        ensures
            r@ == self.spec_cert_pass(),
    {
        self.ssl_cert_pass.as_str()
    }
}

impl ServerSettings {
    pub closed spec fn spec_host(&self) -> Seq<char> {
        self.host@
    }

    pub closed spec fn spec_port(&self) -> u16 {
        self.port
    }

    pub closed spec fn spec_security(&self) -> Option<SecuritySettings> {
        self.security
    }

    pub closed spec fn spec_http2_settings(&self) -> Option<Seq<SettingsParameter>> {
        match self.http2_settings {
            Some(v) => Some(v@),
            None => None,
        }
    }

    /// Listens on `0.0.0.0:8080` without TLS.
    pub fn default() -> (r: Self)
        ensures
            r.spec_host() == "0.0.0.0"@,
            r.spec_port() == 8080,
            r.spec_security() is None,
            r.spec_http2_settings() is None,
    {
        ServerSettings {
            host: String::from_str("0.0.0.0"),
            port: 8080,
            security: None,
            http2_settings: None,
        }
    }

    pub fn get_host(&self) -> (r: &str)
        ensures
            r@ == self.spec_host(),
    {
        self.host.as_str()
    }

    pub fn get_port(&self) -> (r: u16)
        ensures
            r == self.spec_port(),
    {
        self.port
    }

    /// Whether the server uses TLS.
    pub fn is_use_security(&self) -> (r: bool)
        ensures
            r == self.spec_security() is Some,
    {
        self.security.is_some()
    }

    /// The TLS settings; only for a server configured to use TLS.
    pub fn get_security(&self) -> (r: &SecuritySettings)
        requires
            self.spec_security() is Some,
        ensures
            Some(*r) == self.spec_security(),
    {
        self.security.as_ref().unwrap()
    }

    pub fn set_security(&mut self, security: SecuritySettings)
        ensures
            final(self).spec_security() == Some(security),
            final(self).spec_host() == old(self).spec_host(),
            final(self).spec_port() == old(self).spec_port(),
            final(self).spec_http2_settings() == old(self).spec_http2_settings(),
    {
        self.security = Some(security);
    }
}

} // verus!
