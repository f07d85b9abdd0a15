pub mod http;
pub mod http2;
pub mod http_version;
pub mod octets;
pub mod shared;
