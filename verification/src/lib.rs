//! A small HTTP/1.x server toolkit: a wire-format request decoder, a
//! parameterized routing trie, a response builder, and the configuration
//! value tying them together.  Listening sockets, handler invocation and
//! file reading are left to the embedding application, which calls the
//! verified pieces on plain values.

pub mod cookie;
pub mod decimal;
pub mod method;
pub mod minimal;
pub mod request;
pub mod response;
pub mod router;
pub mod status;
pub mod strmap;
pub mod text;
pub mod version;

use vstd::prelude::*;

verus! {

/// How much a server run reports.
#[derive(Clone, Debug, PartialEq, Eq, Structural)]
pub enum LogLevel {
    All,
    Severe,
    ErrorsOnly,
    Silent,
}

/// A configured application: the address and port to serve on, the shared
/// router, and the protocol version written in front of each response.
pub struct App<H> {
    pub address: &'static str,
    pub port: u32,
    pub router: std::sync::Arc<router::Router<H>>,
    pub version: version::HttpVersion,
}

impl<H> App<H> {
    /// An application serving `router` on `address:port`, answering with
    /// protocol version 1.1 until told otherwise.
    pub fn new(address: &'static str, port: u32, router: router::Router<H>) -> (r: Self)
        ensures
            r.address == address,
            r.port == port,
            r.router == router,
            r.version == version::HttpVersion::HTTP_1_1,
    {
        Self {
            address,
            port,
            router: std::sync::Arc::new(router),
            version: version::HttpVersion::HTTP_1_1,
        }
    }

    /// Replaces the protocol version written in front of responses.
    pub fn version(&mut self, version: version::HttpVersion)
        ensures
            final(self).version == version,
            final(self).address == old(self).address,
            final(self).port == old(self).port,
            final(self).router == old(self).router,
    {
        self.version = version;
    }
}

} // verus!
