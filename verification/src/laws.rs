//! What holds of registration, dispatch and mounting, for every table, every
//! downstream service and every path.

use crate::interceptor::{dispatch, Interceptor, InterceptorService, Outcome};
use crate::mount::{mounted, Mount};
use crate::paths::strip_prefix_spec;
use vstd::prelude::*;

verus! {

/// A request whose path is exactly a registered path is answered by the
/// handler registered for it.
pub proof fn law_exact_match<H, S>(service: InterceptorService<H, S>, path: Seq<char>)
    requires
        service.interceptions().contains_key(path),
    ensures
        service.route(path) == Outcome::<H, S>::Handler(service.interceptions()[path]),
{
}

/// Once a handler is registered for a path, a request for exactly that path
/// is answered by it, whatever the table held before.
pub proof fn law_registered_handler_answers<H, S>(
    table: Map<Seq<char>, H>,
    next: S,
    path: Seq<char>,
    handler: H,
)
    ensures
        dispatch(table.insert(path, handler), next, path) == Outcome::<H, S>::Handler(handler),
{
}

/// A request whose path is no registered path goes to the downstream
/// service, and to nothing else.
pub proof fn law_fallthrough<H, S>(service: InterceptorService<H, S>, path: Seq<char>)
    requires
        !service.interceptions().contains_key(path),
    ensures
        service.route(path) == Outcome::<H, S>::Next(service.next()),
{
}

/// Registering a handler for one path changes the answer for no other path.
pub proof fn law_registration_is_local<H, S>(
    table: Map<Seq<char>, H>,
    next: S,
    path: Seq<char>,
    handler: H,
    other: Seq<char>,
)
    requires
        other != path,
    ensures
        dispatch(table.insert(path, handler), next, other) == dispatch(table, next, other),
{
}

/// Registrations for two different paths give the same table, and so the
/// same answer for every path, in either order.
pub proof fn law_order_irrelevant<H, S>(
    table: Map<Seq<char>, H>,
    next: S,
    a: Seq<char>,
    first: H,
    b: Seq<char>,
    second: H,
    path: Seq<char>,
)
    requires
        a != b,
    ensures
        table.insert(a, first).insert(b, second) == table.insert(b, second).insert(a, first),
        dispatch(table.insert(a, first).insert(b, second), next, path) == dispatch(
            table.insert(b, second).insert(a, first),
            next,
            path,
        ),
{
    assert(table.insert(a, first).insert(b, second) =~= table.insert(b, second).insert(a, first));
}

/// Of two registrations for one path only the later counts: the table is the
/// one that the later registration alone would give, and the path is answered
/// by the later handler.
pub proof fn law_overwrite<H, S>(
    table: Map<Seq<char>, H>,
    next: S,
    path: Seq<char>,
    earlier: H,
    later: H,
)
    ensures
        table.insert(path, earlier).insert(path, later) == table.insert(path, later),
        dispatch(table.insert(path, earlier).insert(path, later), next, path) == Outcome::<
            H,
            S,
        >::Handler(later),
{
    assert(table.insert(path, earlier).insert(path, later) =~= table.insert(path, later));
}

/// A table attached to a downstream service as a layer, and the same table
/// composed with that service by value, answer every path alike: what
/// [`Interceptor::layer`] and [`Interceptor::into_service`] promise of their
/// results leaves no path on which the two could differ.
pub proof fn law_composition_transparent<H, S>(
    layer: Interceptor<H>,
    next: S,
    attached: InterceptorService<H, S>,
    composed: InterceptorService<H, S>,
    path: Seq<char>,
)
    requires
        attached.interceptions() == layer@,
        attached.next() == next,
        composed.interceptions() == layer@,
        composed.next() == next,
    ensures
        attached.route(path) == composed.route(path),
        attached.route(path) == dispatch(layer@, next, path),
{
}

/// Under a mount the table sees the stripped path: a request for the prefix
/// followed by a registered path, which begins with `/`, is answered by the
/// handler registered for that path without the prefix.
pub proof fn law_nested_interception<H, S>(mount: Mount<H, S>, registered: Seq<char>)
    requires
        mount.service().interceptions().contains_key(registered),
        registered.len() > 0,
        registered[0] == '/',
    ensures
        mount.route(mount.prefix() + registered) == Some(
            (registered, Outcome::<H, S>::Handler(mount.service().interceptions()[registered])),
        ),
{
    lemma_strip_joined(mount.prefix(), registered);
}

/// The prefix followed by a path that begins with `/` strips back to that
/// path.
pub proof fn lemma_strip_joined(prefix: Seq<char>, rest: Seq<char>)
    requires
        rest.len() > 0,
        rest[0] == '/',
    ensures
        strip_prefix_spec(prefix, prefix + rest) == Some(rest),
{
    let path = prefix + rest;
    assert(path.len() == prefix.len() + rest.len());
    assert(path.subrange(0, prefix.len() as int) =~= prefix);
    assert(path.subrange(prefix.len() as int, path.len() as int) =~= rest);
    assert(path[prefix.len() as int] == rest[0]);
}

/// A path under the mount whose stripped form is not registered reaches the
/// downstream service of the mounted sub-tree exactly as it would with no
/// table in front of it: same stripped path, same service.
pub proof fn law_unrelated_routes_preserved<H, S>(mount: Mount<H, S>, path: Seq<char>)
    requires
        strip_prefix_spec(mount.prefix(), path) matches Some(rest)
            && !mount.service().interceptions().contains_key(rest),
    ensures
        mount.route(path) == mounted(
            mount.prefix(),
            Map::<Seq<char>, H>::empty(),
            mount.service().next(),
            path,
        ),
        mount.route(path) == Some(
            (
                strip_prefix_spec(mount.prefix(), path).unwrap(),
                Outcome::<H, S>::Next(mount.service().next()),
            ),
        ),
{
}

/// A mount answers nothing for a path outside its prefix, whatever its table
/// holds.
pub proof fn law_outside_mount<H, S>(mount: Mount<H, S>, path: Seq<char>)
    requires
        strip_prefix_spec(mount.prefix(), path) is None,
    ensures
        mount.route(path) is None,
{
}

} // verus!
