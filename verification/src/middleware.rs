//! Configuration data for the tracing middleware.
//!
//! The layer carries an optional path filter deciding which requests get a
//! span.  The service type pairs that filter with the wrapped service.  The
//! middleware machinery itself (futures, span plumbing) is adapter work; the
//! data and its builders are verified here.

use vstd::prelude::*;

verus! {

/// A tracing layer for the HTTP router: wraps a service and remembers which
/// request paths should be traced.
pub struct OtelAxumLayer<F> {
    pub filter: Option<F>,
}

impl<F> Default for OtelAxumLayer<F> {
    /// A layer that traces every request.
    fn default() -> (r: Self)
        ensures
            r.filter is None,
    {
        OtelAxumLayer { filter: None }
    }
}

impl<F> OtelAxumLayer<F> {
    /// The same layer with the given path filter.
    #[must_use]
    pub fn filter(self, filter: F) -> (r: Self)
        ensures
            r.filter == Some(filter),
    {
        OtelAxumLayer { filter: Some(filter) }
    }
}

impl<F: Copy> OtelAxumLayer<F> {
    /// Wraps a service, handing it the layer's filter.
    pub fn layer<S>(&self, inner: S) -> (r: OtelAxumService<S, F>)
        ensures
            r.filter == self.filter,
            r.inner == inner,
    {
        OtelAxumService { inner, filter: self.filter }
    }
}

/// A service wrapped by [`OtelAxumLayer`]: the inner service plus the path
/// filter the layer was built with.
pub struct OtelAxumService<S, F> {
    pub inner: S,
    pub filter: Option<F>,
}

} // verus!
