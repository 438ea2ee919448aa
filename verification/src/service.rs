//! Holders that put one service around another.

use vstd::prelude::*;

verus! {

/// Middleware that follows redirect responses on behalf of the service it
/// holds.
pub struct FollowRedirect<S> {
    pub service: S,
}

impl<S> FollowRedirect<S> {
    /// The middleware around the given service.
    pub fn new(service: S) -> (r: Self)
        ensures
            r.service == service,
    {
        FollowRedirect { service }
    }
}

/// Builder of an HTTP/3 service from a service factory.
pub struct H3ServiceBuilder<F> {
    pub factory: F,
}

impl<F> H3ServiceBuilder<F> {
    /// A builder that holds the given service factory.
    pub fn new(factory: F) -> (r: Self)
        ensures
            r.factory == factory,
    {
        H3ServiceBuilder { factory }
    }
}

/// Middleware that decompresses request bodies by their content encoding.
#[derive(Clone, Copy)]
pub struct Decompress;

/// The service that [`Decompress`] puts around another.
pub struct DecompressService<S> {
    pub service: S,
}

impl Decompress {
    /// Puts the decompressing service around `service`.
    pub fn build<S>(&self, service: S) -> (r: DecompressService<S>)
        ensures
            r.service == service,
    {
        DecompressService { service }
    }
}

} // verus!
