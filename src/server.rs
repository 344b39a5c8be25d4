//! Server configuration: where to listen and which headers to announce.
use vstd::prelude::*;
use crate::http::{Header, CONNECTION_KEEP_ALIVE, HEADER_CONNECTION, HEADER_SERVER};
use crate::message::header_pairs;
use crate::text::{decimal, push_decimal};

verus! {

/// The name this library announces in the `Server` header of the preset.
pub const DEFAULT_SERVER_NAME: &'static str = "libhttp/0.1.0";

/// Where a server listens and the headers it is configured with.
pub struct ServerConfig {
    pub hostname: String,
    pub port: u16,
    pub default_headers: Vec<Header>,
}

impl ServerConfig {
    /// The zero-configuration preset: loopback address, port 80, and the
    /// `Server` and `Connection: keep-alive` headers.
    pub fn preset() -> (r: ServerConfig)
        ensures
            r.hostname@ == "127.0.0.1"@,
            r.port == 80,
            header_pairs(r.default_headers@) == seq![
                ("Server"@, "libhttp/0.1.0"@),
                ("Connection"@, "keep-alive"@),
            ],
    {
        let mut default_headers: Vec<Header> = Vec::new();
        default_headers.push(Header::new(HEADER_SERVER, DEFAULT_SERVER_NAME));
        default_headers.push(Header::new(HEADER_CONNECTION, CONNECTION_KEEP_ALIVE));
        let r = ServerConfig { hostname: "127.0.0.1".to_owned(), port: 80, default_headers };
        assert(header_pairs(r.default_headers@) =~= seq![
            ("Server"@, "libhttp/0.1.0"@),
            ("Connection"@, "keep-alive"@),
        ]);
        r
    }

    /// The address to bind: `hostname:port`.
    pub fn address(&self) -> (r: String)
        ensures
            r@ == self.hostname@ + ":"@ + decimal(self.port as nat),
    {
        let mut s = self.hostname.as_str().to_owned();
        s.append(":");
        push_decimal(&mut s, self.port as u64);
        s
    }
}

} // verus!
