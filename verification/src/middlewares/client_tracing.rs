//! The client middleware that traces outgoing requests.

use vstd::prelude::*;

verus! {

/// Middleware that opens a client span around each outgoing request and
/// propagates its context in the request headers.
pub struct ClientTracing;

/// An endpoint wrapped by [`ClientTracing`].
pub struct ClientTracingEndpoint<E> {
    inner: E,
}

impl ClientTracing {
    /// Wraps `ep`.
    pub fn transform<E>(&self, ep: E) -> (r: ClientTracingEndpoint<E>)
        ensures
            r.wrapped() == ep,
    {
        ClientTracingEndpoint { inner: ep }
    }
}

impl<E> ClientTracingEndpoint<E> {
    /// The endpoint that is wrapped.
    pub closed spec fn wrapped(&self) -> E {
        self.inner
    }

    /// The endpoint that is wrapped.
    pub fn inner(&self) -> (ep: &E)
        ensures
            *ep == self.wrapped(),
    {
        &self.inner
    }
}

} // verus!
