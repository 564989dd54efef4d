//! The interception table, and the service that dispatches on it.

use crate::paths::{parse_path, uri_path};
use std::sync::Arc;
use vstd::prelude::*;

verus! {

/// One registration: an exact path and the handler that answers it.
struct Interception<H> {
    path: String,
    handler: Arc<H>,
}

/// A named table from exact request paths to handlers.
///
/// The table alone answers nothing: it becomes live when paired with a
/// downstream service, by [`Interceptor::into_service`] or
/// [`Interceptor::layer`]. Handlers are held by shared ownership, so a copy of
/// the table shares them.
pub struct Interceptor<H> {
    name: String,
    interceptions: Vec<Interception<H>>,
}

/// No path is registered twice.
spec fn distinct_paths<H>(s: Seq<Interception<H>>) -> bool {
    forall|i: int, j: int|
        0 <= i < j < s.len() ==> (#[trigger] s[i]).path@ != (#[trigger] s[j]).path@
}

/// The map that a sequence of registrations stands for.
spec fn table<H>(s: Seq<Interception<H>>) -> Map<Seq<char>, H> {
    Map::new(
        |p: Seq<char>| exists|i: int| 0 <= i < s.len() && (#[trigger] s[i]).path@ == p,
        |p: Seq<char>|
            *s[choose|i: int| 0 <= i < s.len() && (#[trigger] s[i]).path@ == p].handler,
    )
}

/// `m` has exactly the registrations of `s`.
spec fn holds<H>(s: Seq<Interception<H>>, m: Map<Seq<char>, H>) -> bool {
    &&& forall|i: int|
        0 <= i < s.len() ==> m.contains_key((#[trigger] s[i]).path@) && m[s[i].path@]
            == *s[i].handler
    &&& forall|p: Seq<char>| #[trigger]
        m.contains_key(p) ==> exists|i: int| 0 <= i < s.len() && (#[trigger] s[i]).path@ == p
}

proof fn lemma_table_holds<H>(s: Seq<Interception<H>>)
    requires
        distinct_paths(s),
    ensures
        holds(s, table(s)),
{
    assert forall|i: int| 0 <= i < s.len() implies table(s).contains_key((#[trigger] s[i]).path@)
        && table(s)[s[i].path@] == *s[i].handler by {
        let p = s[i].path@;
        let c = choose|c: int| 0 <= c < s.len() && (#[trigger] s[c]).path@ == p;
        assert(c == i);
    }
}

proof fn lemma_holds_one<H>(s: Seq<Interception<H>>, m: Map<Seq<char>, H>)
    requires
        distinct_paths(s),
        holds(s, m),
    ensures
        table(s) == m,
{
    lemma_table_holds(s);
    assert(table(s) =~= m);
}

/// A second handle on the allocation that `a` points to. Trusted:
/// `Arc::clone` hands back a pointer to the same value.
#[verifier::external_body]
fn share<T>(a: &Arc<T>) -> (r: Arc<T>)
    ensures
        r == *a,
{
    Arc::clone(a)
}

impl<H> View for Interceptor<H> {
    type V = Map<Seq<char>, H>;

    /// The handler registered for each path.
    closed spec fn view(&self) -> Map<Seq<char>, H> {
        table(self.interceptions@)
    }
}

impl<H> Clone for Interceptor<H> {
    /// A copy with the same name and the same registrations, sharing the
    /// handlers.
    fn clone(&self) -> (r: Self)
        ensures
            r@ == self@,
            r.label() == self.label(),
    {
        proof {
            use_type_invariant(self);
        }
        let mut copies: Vec<Interception<H>> = Vec::new();
        let mut k: usize = 0;
        while k < self.interceptions.len()
            invariant
                k <= self.interceptions.len(),
                copies.len() == k,
                forall|i: int|
                    0 <= i < k ==> (#[trigger] copies[i]).path@ == self.interceptions[i].path@
                        && *copies[i].handler == *self.interceptions[i].handler,
            decreases self.interceptions.len() - k,
        {
            let entry = &self.interceptions[k];
            copies.push(Interception { path: entry.path.clone(), handler: share(&entry.handler) });
            k += 1;
        }
        proof {
            lemma_table_holds(self.interceptions@);
            assert(distinct_paths(copies@));
            assert(holds(copies@, self@)) by {
                assert forall|p: Seq<char>| #[trigger] self@.contains_key(p) implies exists|i: int|
                    0 <= i < copies.len() && (#[trigger] copies[i]).path@ == p by {
                    let w = choose|i: int|
                        0 <= i < self.interceptions.len() && (#[trigger] self.interceptions[i]).path@
                            == p;
                    assert(copies[w].path@ == p);
                }
            }
            lemma_holds_one(copies@, self@);
        }
        Interceptor { name: self.name.clone(), interceptions: copies }
    }
}

impl<H> Interceptor<H> {
    #[verifier::type_invariant]
    spec fn wf(self) -> bool {
        distinct_paths(self.interceptions@)
    }

    /// The name given at construction.
    pub closed spec fn label(&self) -> Seq<char> {
        self.name@
    }

    /// An empty table called `name`.
    pub fn with_name(name: &str) -> (r: Self)
        ensures
            r@ == Map::<Seq<char>, H>::empty(),
            r.label() == name@,
    {
        let r = Interceptor { name: name.to_owned(), interceptions: Vec::new() };
        assert(r@ =~= Map::<Seq<char>, H>::empty());
        r
    }

    /// The name, for diagnostics.
    pub fn name(&self) -> (r: &str)
        ensures
            r@ == self.label(),
    {
        self.name.as_str()
    }

    /// Where `path` is registered, if it is.
    fn position(&self, path: &String) -> (r: Option<usize>)
        ensures
            match r {
                Some(k) => k < self.interceptions.len() && self.interceptions[k as int].path@
                    == path@,
                None => !self@.contains_key(path@),
            },
    {
        let mut k: usize = 0;
        while k < self.interceptions.len()
            invariant
                k <= self.interceptions.len(),
                forall|i: int| 0 <= i < k ==> (#[trigger] self.interceptions[i]).path@ != path@,
            decreases self.interceptions.len() - k,
        {
            if self.interceptions[k].path == *path {
                return Some(k);
            }
            k += 1;
        }
        None
    }

    /// Registers `handler` for exactly `entity`, in place of any handler
    /// registered for it before. The path is taken as it is.
    pub fn intercept(self, entity: &str, handler: H) -> (r: Self)
        ensures
            r@ == self@.insert(entity@, handler),
            r.label() == self.label(),
    {
        proof {
            use_type_invariant(&self);
            lemma_table_holds(self.interceptions@);
        }
        let ghost before = self.interceptions@;
        let ghost goal = self@.insert(entity@, handler);
        let path = entity.to_owned();
        let found = self.position(&path);
        let Interceptor { name, mut interceptions } = self;
        let entry = Interception { path, handler: Arc::new(handler) };
        match found {
            Some(k) => {
                interceptions.set(k, entry);
            },
            None => {
                interceptions.push(entry);
            },
        }
        proof {
            assert(distinct_paths(interceptions@));
            assert(holds(interceptions@, goal)) by {
                assert forall|p: Seq<char>| #[trigger] goal.contains_key(p) implies exists|i: int|
                    0 <= i < interceptions.len() && (#[trigger] interceptions[i]).path@ == p by {
                    if p == entity@ {
                        let w = match found {
                            Some(k) => k as int,
                            None => before.len() as int,
                        };
                        assert(interceptions[w].path@ == p);
                    } else {
                        let w = choose|i: int|
                            0 <= i < before.len() && (#[trigger] before[i]).path@ == p;
                        assert(interceptions[w].path@ == p);
                    }
                }
            }
            lemma_holds_one(interceptions@, goal);
        }
        Interceptor { name, interceptions }
    }

    /// The handler registered for exactly `path`, if there is one.
    pub fn lookup(&self, path: &str) -> (r: Option<Arc<H>>)
        ensures
            match r {
                Some(h) => self@.contains_key(path@) && *h == self@[path@],
                None => !self@.contains_key(path@),
            },
    {
        proof {
            use_type_invariant(self);
            lemma_table_holds(self.interceptions@);
        }
        let key = path.to_owned();
        match self.position(&key) {
            Some(k) => Some(share(&self.interceptions[k].handler)),
            None => None,
        }
    }

    /// Pairs the table with `next`: the explicit way to make it live.
    pub fn into_service<S>(self, next: S) -> (r: InterceptorService<H, S>)
        ensures
            r.interceptions() == self@,
            r.next() == next,
            r.label() == self.label(),
    {
        InterceptorService::from_router_and_next(self, next)
    }

    /// Wraps `inner` in a copy of the table: what a routing tree does when the
    /// table is attached to it as a layer.
    pub fn layer<S>(&self, inner: S) -> (r: InterceptorService<H, S>)
        ensures
            r.interceptions() == self@,
            r.next() == inner,
            r.label() == self.label(),
    {
        InterceptorService::from_router_and_next(self.clone(), inner)
    }
}

/// Who answers a request: the view of a [`Dispatch`].
pub enum Outcome<H, S> {
    /// The handler registered for the request's path.
    Handler(H),
    /// The downstream service, which gets the request as it came.
    Next(S),
}

/// The decision for one request, with a handle on whoever is to answer it.
pub enum Dispatch<H, S> {
    /// A registered handler answers; the downstream service is not called.
    Intercepted(Arc<H>),
    /// The downstream service answers the unmodified request.
    Forwarded(Arc<S>),
}

impl<H, S> View for Dispatch<H, S> {
    type V = Outcome<H, S>;

    open spec fn view(&self) -> Outcome<H, S> {
        match *self {
            Dispatch::Intercepted(h) => Outcome::Handler(*h),
            Dispatch::Forwarded(n) => Outcome::Next(*n),
        }
    }
}

/// Exact-match dispatch: the handler registered for `path` itself, else the
/// downstream service. No prefix, pattern or normalised form of `path` is
/// tried.
pub open spec fn dispatch<H, S>(table: Map<Seq<char>, H>, next: S, path: Seq<char>) -> Outcome<
    H,
    S,
> {
    if table.contains_key(path) {
        Outcome::Handler(table[path])
    } else {
        Outcome::Next(next)
    }
}

/// An interception table in front of one downstream service.
pub struct InterceptorService<H, S> {
    interceptor: Interceptor<H>,
    next: Arc<S>,
}

impl<H, S> Clone for InterceptorService<H, S> {
    /// A copy that shares the table's handlers and the downstream service.
    fn clone(&self) -> (r: Self)
        ensures
            r.interceptions() == self.interceptions(),
            r.next() == self.next(),
            r.label() == self.label(),
    {
        InterceptorService { interceptor: self.interceptor.clone(), next: share(&self.next) }
    }
}

impl<H, S> InterceptorService<H, S> {
    /// The table that is consulted first.
    pub closed spec fn interceptions(&self) -> Map<Seq<char>, H> {
        self.interceptor@
    }

    /// The downstream service.
    pub closed spec fn next(&self) -> S {
        *self.next
    }

    /// The name of the table.
    pub closed spec fn label(&self) -> Seq<char> {
        self.interceptor.label()
    }

    /// Who answers a request for `path`.
    pub open spec fn route(&self, path: Seq<char>) -> Outcome<H, S> {
        dispatch(self.interceptions(), self.next(), path)
    }

    /// Puts `router` in front of `next`.
    pub fn from_router_and_next(router: Interceptor<H>, next: S) -> (r: Self)
        ensures
            r.interceptions() == router@,
            r.next() == next,
            r.label() == router.label(),
    {
        InterceptorService { interceptor: router, next: Arc::new(next) }
    }

    /// The name of the table, for diagnostics.
    pub fn name(&self) -> (r: &str)
        ensures
            r@ == self.label(),
    {
        self.interceptor.name()
    }

    /// Decides who answers a request whose path is `path`.
    pub fn call(&self, path: &str) -> (r: Dispatch<H, S>)
        ensures
            r@ == self.route(path@),
    {
        match self.interceptor.lookup(path) {
            Some(h) => Dispatch::Intercepted(h),
            None => Dispatch::Forwarded(share(&self.next)),
        }
    }

    /// Decides who answers a request whose target is `target`: the path
    /// component is taken from the target and dispatched on; query string and
    /// fragment play no part. `None` where the target is no URI.
    pub fn call_target(&self, target: &str) -> (r: Option<Dispatch<H, S>>)
        ensures
            match uri_path(target@) {
                Some(path) => r matches Some(d) && d@ == self.route(path),
                None => r is None,
            },
    {
        match parse_path(target) {
            Some(path) => Some(self.call(path.as_str())),
            None => None,
        }
    }
}

} // verus!
