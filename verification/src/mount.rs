//! An interceptor service mounted under a path prefix.
//!
//! The rule is fixed here, once: whatever is mounted under a prefix sees the
//! path with the prefix taken off. A table that sits in a mounted sub-tree
//! therefore registers its paths without the prefix, and the downstream
//! service of that sub-tree is handed the same stripped path.

use crate::interceptor::{Dispatch, InterceptorService, Outcome};
use crate::paths::{parse_path, strip_prefix, strip_prefix_spec, uri_path};
use vstd::prelude::*;

verus! {

/// A decision taken inside a mount, with the path it was taken on.
pub struct Routed<H, S> {
    /// The path as the mounted service saw it: the request's path without
    /// the mount's prefix.
    pub path: String,
    /// Who answers.
    pub dispatch: Dispatch<H, S>,
}

impl<H, S> View for Routed<H, S> {
    type V = (Seq<char>, Outcome<H, S>);

    open spec fn view(&self) -> (Seq<char>, Outcome<H, S>) {
        (self.path@, self.dispatch@)
    }
}

/// What a mount at `prefix` makes of `path`: nothing where the path lies
/// outside the prefix, else the stripped path and the outcome of exact-match
/// dispatch on that stripped path.
pub open spec fn mounted<H, S>(
    prefix: Seq<char>,
    table: Map<Seq<char>, H>,
    next: S,
    path: Seq<char>,
) -> Option<(Seq<char>, Outcome<H, S>)> {
    match strip_prefix_spec(prefix, path) {
        Some(rest) => Some((rest, crate::interceptor::dispatch(table, next, rest))),
        None => None,
    }
}

/// An interceptor service under a path prefix.
pub struct Mount<H, S> {
    prefix: String,
    service: InterceptorService<H, S>,
}

impl<H, S> Mount<H, S> {
    /// The prefix under which the service is mounted.
    pub closed spec fn prefix(&self) -> Seq<char> {
        self.prefix@
    }

    /// The mounted service.
    pub closed spec fn service(&self) -> InterceptorService<H, S> {
        self.service
    }

    /// What the mount makes of a request for `path`.
    pub open spec fn route(&self, path: Seq<char>) -> Option<(Seq<char>, Outcome<H, S>)> {
        mounted(self.prefix(), self.service().interceptions(), self.service().next(), path)
    }

    /// Mounts `service` under `prefix`.
    pub fn new(prefix: &str, service: InterceptorService<H, S>) -> (r: Self)
        ensures
            r.prefix() == prefix@,
            r.service() == service,
    {
        Mount { prefix: prefix.to_owned(), service }
    }

    /// Decides who answers a request whose full path is `path`: `None` where
    /// the path lies outside the mount, else the decision of the mounted
    /// service on the stripped path.
    pub fn call(&self, path: &str) -> (r: Option<Routed<H, S>>)
        ensures
            match self.route(path@) {
                Some(seen) => r matches Some(routed) && routed@ == seen,
                None => r is None,
            },
    {
        match strip_prefix(self.prefix.as_str(), path) {
            Some(rest) => {
                let dispatch = self.service.call(rest.as_str());
                Some(Routed { path: rest, dispatch })
            },
            None => None,
        }
    }

    /// As [`Mount::call`], on the path component of the request target
    /// `target`. `None` also where the target is no URI.
    pub fn call_target(&self, target: &str) -> (r: Option<Routed<H, S>>)
        ensures
            match uri_path(target@) {
                Some(path) => match self.route(path) {
                    Some(seen) => r matches Some(routed) && routed@ == seen,
                    None => r is None,
                },
                None => r is None,
            },
    {
        match parse_path(target) {
            Some(path) => self.call(path.as_str()),
            None => None,
        }
    }
}

} // verus!
