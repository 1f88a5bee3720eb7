//! The server middleware that records which service a request calls.

use vstd::prelude::*;

use crate::middlewares::{service_from_path, service_of_path};

verus! {

/// The name of the service that handles the current request.
#[derive(Debug, Clone)]
pub struct CurrentServiceName(pub String);

/// Middleware that records the called service for the handlers.
pub struct SetCurrentService;

/// An endpoint wrapped by [`SetCurrentService`].
pub struct SetCurrentServiceEndpoint<E> {
    inner: E,
}

impl SetCurrentService {
    /// Wraps `ep`.
    pub fn transform<E>(&self, ep: E) -> (r: SetCurrentServiceEndpoint<E>)
        ensures
            r.wrapped() == ep,
    {
        SetCurrentServiceEndpoint { inner: ep }
    }
}

impl<E> SetCurrentServiceEndpoint<E> {
    /// The endpoint that is wrapped.
    pub closed spec fn wrapped(&self) -> E {
        self.inner
    }

    /// The endpoint that is wrapped.
    pub fn inner(&self) -> (ep: &E)
        ensures
            *ep == self.wrapped(),
    {
        &self.inner
    }

    /// The service name to record for a request for `path`, where the path
    /// names one.
    pub fn current_service(&self, path: &str) -> (r: Option<CurrentServiceName>)
        ensures
            match r {
                Some(name) => service_of_path(path@) == Some(name.0@),
                None => service_of_path(path@) is None,
            },
    {
        match service_from_path(path) {
            Some(service) => Some(CurrentServiceName(service.to_owned())),
            None => None,
        }
    }
}

} // verus!
