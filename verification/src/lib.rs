//! Exact-path request interception.
//!
//! An [`interceptor::Interceptor`] is an inert table from request paths to
//! handlers. Paired with a downstream service it becomes an
//! [`interceptor::InterceptorService`], which decides for each request path
//! whether a registered handler answers or the request goes on downstream.
//! [`mount::Mount`] fixes what such a service sees when it sits under a path
//! prefix.

pub mod interceptor;
pub mod laws;
pub mod mount;
pub mod paths;
