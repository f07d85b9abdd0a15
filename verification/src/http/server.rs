//! HTTP/1 server settings.

use vstd::prelude::*;
use vstd::string::StringExecFns;
use crate::http2::header::{decimal_text, i32_to_decimal};

verus! {

/// Where the HTTP/1 server listens; unset fields take their defaults.
pub struct Settings {
    pub host: Option<String>,
    pub port: Option<i32>,
}

/// The address `host:port` the server listens on: host `0.0.0.0` and port
/// 8000 unless the settings say otherwise.
pub open spec fn spec_addr(settings: Option<Settings>) -> Seq<char> {
    let (host, port) = match settings {
        Some(s) => (
            match s.host {
                Some(h) => h@,
                None => "0.0.0.0"@,
            },
            match s.port {
                Some(p) => p as int,
                None => 8000int,
            },
        ),
        None => ("0.0.0.0"@, 8000int),
    };
    host + ":"@ + decimal_text(port)
}

/// Builds the address `host:port` the server listens on.
pub fn get_addr(settings: Option<Settings>) -> (r: String)
    ensures
        r@ == spec_addr(settings),
{
    let (host, port): (String, i32) = match settings {
        Some(s) => (
            match s.host {
                Some(h) => h,
                None => String::from_str("0.0.0.0"),
            },
            match s.port {
                Some(p) => p,
                None => 8000,
            },
        ),
        None => (String::from_str("0.0.0.0"), 8000),
    };
    let port_text = i32_to_decimal(port);
    host.concat(":").concat(port_text.as_str())
}

} // verus!
