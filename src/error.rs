use vstd::prelude::*;

verus! {

/// Why a session ended without relaying.
#[derive(Debug, Clone, Copy, PartialEq, Eq, Structural)]
pub enum ProxyError {
    /// The opening bytes are not text holding three whitespace-separated tokens.
    MalformedHandshake,
    /// The target token yields no usable host and port.
    UnresolvableDestination,
    /// The outbound connection could not be opened.
    UpstreamConnectFailure,
    /// A read or write failed while relaying.
    RelayFault,
}

} // verus!
