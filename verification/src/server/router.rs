//! The route table: registration, and the choice of a route for a request.

use crate::chars::same_text;
use crate::parser::method::Method;
use crate::parser::request::HttpRequest;
use vstd::prelude::*;

verus! {

/// A registration: a path, the methods that are accepted for it, and what
/// handles a request that matches.
pub struct Route<H> {
    /// The path, which a request's path must equal letter for letter.
    pub path: String,
    /// The accepted methods.
    pub methods: Vec<Method>,
    /// The handler.
    pub handler: H,
}

/// The model of a route: its path and its methods.
pub struct RouteView {
    pub path: Seq<char>,
    pub methods: Seq<Method>,
}

impl<H> View for Route<H> {
    type V = RouteView;

    open spec fn view(&self) -> RouteView {
        RouteView { path: self.path@, methods: self.methods@ }
    }
}

/// What the table decides for a request.
pub enum Resolution {
    /// The route at this index handles the request.
    Matched(int),
    /// Routes have the path, but none accepts the method; these are the
    /// methods that they accept.
    MethodNotAllowed(Seq<Method>),
    /// No route has the path.
    NotFound,
}

/// Whether the route accepts the method for the path.
pub open spec fn accepts(route: RouteView, path: Seq<char>, method: Method) -> bool {
    route.path == path && route.methods.contains(method)
}

/// Index of the first route that accepts the method for the path, or the
/// number of routes.
pub open spec fn first_match(routes: Seq<RouteView>, path: Seq<char>, method: Method) -> int
    decreases routes.len(),
{
    if routes.len() == 0 {
        0
    } else if accepts(routes[0], path, method) {
        0
    } else {
        1 + first_match(routes.drop_first(), path, method)
    }
}

/// Whether some route has the path.
pub open spec fn has_path(routes: Seq<RouteView>, path: Seq<char>) -> bool {
    exists|i: int| 0 <= i < routes.len() && (#[trigger] routes[i]).path == path
}

/// `acc` with each method of `ms` that it lacks added at its end, in order.
pub open spec fn union_methods(acc: Seq<Method>, ms: Seq<Method>) -> Seq<Method>
    decreases ms.len(),
{
    if ms.len() == 0 {
        acc
    } else {
        union_methods(
            if acc.contains(ms[0]) {
                acc
            } else {
                acc.push(ms[0])
            },
            ms.drop_first(),
        )
    }
}

/// `acc` joined with the methods of the routes that have the path, in the
/// order of registration.
pub open spec fn allowed_from(acc: Seq<Method>, routes: Seq<RouteView>, path: Seq<char>) -> Seq<
    Method,
>
    decreases routes.len(),
{
    if routes.len() == 0 {
        acc
    } else {
        allowed_from(
            if routes[0].path == path {
                union_methods(acc, routes[0].methods)
            } else {
                acc
            },
            routes.drop_first(),
            path,
        )
    }
}

/// The methods that the routes with the path accept: each once, in the order
/// of registration.
pub open spec fn allowed(routes: Seq<RouteView>, path: Seq<char>) -> Seq<Method> {
    allowed_from(Seq::empty(), routes, path)
}

/// The decision for a request with the given path and method.
pub open spec fn resolve(routes: Seq<RouteView>, path: Seq<char>, method: Method) -> Resolution {
    let i = first_match(routes, path, method);
    if i < routes.len() {
        Resolution::Matched(i)
    } else if has_path(routes, path) {
        Resolution::MethodNotAllowed(allowed(routes, path))
    } else {
        Resolution::NotFound
    }
}

/// `i` is the first index of a route that accepts, or the number of routes.
pub open spec fn is_first_match(
    routes: Seq<RouteView>,
    path: Seq<char>,
    method: Method,
    i: int,
) -> bool {
    &&& 0 <= i <= routes.len()
    &&& forall|j: int| 0 <= j < i ==> !accepts(#[trigger] routes[j], path, method)
    &&& i < routes.len() ==> accepts(routes[i], path, method)
}

/// `first_match` is the one index that `is_first_match` describes.
pub proof fn lemma_first_match(routes: Seq<RouteView>, path: Seq<char>, method: Method)
    ensures
        is_first_match(routes, path, method, first_match(routes, path, method)),
        forall|i: int|
            is_first_match(routes, path, method, i) ==> i == first_match(routes, path, method),
    decreases routes.len(),
{
    if routes.len() == 0 {
    } else if accepts(routes[0], path, method) {
        assert forall|i: int| is_first_match(routes, path, method, i) implies i == 0 by {
            if i > 0 {
                assert(!accepts(routes[0], path, method));
            }
        }
    } else {
        let t = routes.drop_first();
        lemma_first_match(t, path, method);
        let p = first_match(t, path, method);
        assert forall|j: int| 0 <= j < p + 1 implies !accepts(
            #[trigger] routes[j],
            path,
            method,
        ) by {
            if j > 0 {
                assert(routes[j] == t[j - 1]);
            }
        }
        if p + 1 < routes.len() {
            assert(routes[p + 1] == t[p]);
        }
        assert forall|i: int| is_first_match(routes, path, method, i) implies i == p + 1 by {
            if i > 0 {
                assert forall|j: int| 0 <= j < i - 1 implies !accepts(
                    #[trigger] t[j],
                    path,
                    method,
                ) by {
                    assert(t[j] == routes[j + 1]);
                }
                if i - 1 < t.len() {
                    assert(t[i - 1] == routes[i]);
                }
                assert(is_first_match(t, path, method, i - 1));
            }
        }
    }
}

/// What `union_methods` holds: what `acc` held and what `ms` holds. It begins
/// with `acc`, and holds nothing twice if `acc` did not.
pub proof fn lemma_union_methods(acc: Seq<Method>, ms: Seq<Method>)
    ensures
        forall|m: Method|
            union_methods(acc, ms).contains(m) <==> acc.contains(m) || ms.contains(m),
        acc.is_prefix_of(union_methods(acc, ms)),
        acc.no_duplicates() ==> union_methods(acc, ms).no_duplicates(),
    decreases ms.len(),
{
    if ms.len() > 0 {
        let next = if acc.contains(ms[0]) {
            acc
        } else {
            acc.push(ms[0])
        };
        let rest = ms.drop_first();
        lemma_union_methods(next, rest);
        let out = union_methods(acc, ms);
        assert forall|m: Method| out.contains(m) <==> acc.contains(m) || ms.contains(m) by {
            if acc.contains(m) {
                let i = choose|i: int| 0 <= i < acc.len() && acc[i] == m;
                assert(next[i] == m);
            }
            if ms.contains(m) {
                let i = choose|i: int| 0 <= i < ms.len() && ms[i] == m;
                if i == 0 {
                    if !acc.contains(ms[0]) {
                        assert(next[acc.len() as int] == m);
                    }
                } else {
                    assert(rest[i - 1] == m);
                }
            }
            if next.contains(m) && !acc.contains(m) {
                let i = choose|i: int| 0 <= i < next.len() && next[i] == m;
                if i < acc.len() {
                    assert(acc[i] == m);
                }
                assert(ms[0] == m);
            }
            if rest.contains(m) {
                let i = choose|i: int| 0 <= i < rest.len() && rest[i] == m;
                assert(ms[i + 1] == m);
            }
        }
        assert(acc.is_prefix_of(next)) by {
            assert(next.subrange(0, acc.len() as int) =~= acc);
        }
        assert(acc.is_prefix_of(out)) by {
            let whole = next.subrange(0, next.len() as int);
            assert(out.subrange(0, acc.len() as int) =~= whole.subrange(0, acc.len() as int));
        }
        if acc.no_duplicates() {
            assert(next.no_duplicates()) by {
                assert forall|i: int, j: int|
                    0 <= i < next.len() && 0 <= j < next.len() && i != j implies next[i]
                    != next[j] by {
                    if !acc.contains(ms[0]) {
                        if i == acc.len() {
                            assert(acc[j] != ms[0]);
                        } else if j == acc.len() {
                            assert(acc[i] != ms[0]);
                        }
                    }
                }
            }
        }
    } else {
        assert(acc.subrange(0, acc.len() as int) =~= acc);
    }
}

/// What `allowed_from` holds: what `acc` held and the methods of the routes
/// with the path. It holds nothing twice if `acc` did not.
pub proof fn lemma_allowed_from(acc: Seq<Method>, routes: Seq<RouteView>, path: Seq<char>)
    ensures
        forall|m: Method|
            allowed_from(acc, routes, path).contains(m) <==> acc.contains(m) || exists|i: int|
                0 <= i < routes.len() && #[trigger] accepts(routes[i], path, m),
        acc.no_duplicates() ==> allowed_from(acc, routes, path).no_duplicates(),
    decreases routes.len(),
{
    if routes.len() > 0 {
        let next = if routes[0].path == path {
            union_methods(acc, routes[0].methods)
        } else {
            acc
        };
        let rest = routes.drop_first();
        lemma_union_methods(acc, routes[0].methods);
        lemma_allowed_from(next, rest, path);
        let out = allowed_from(acc, routes, path);
        assert forall|m: Method|
            out.contains(m) <==> acc.contains(m) || exists|i: int|
                0 <= i < routes.len() && #[trigger] accepts(routes[i], path, m) by {
            if exists|i: int| 0 <= i < routes.len() && #[trigger] accepts(routes[i], path, m) {
                let i = choose|i: int|
                    0 <= i < routes.len() && #[trigger] accepts(routes[i], path, m);
                if i > 0 {
                    assert(accepts(rest[i - 1], path, m));
                }
            }
            if exists|i: int| 0 <= i < rest.len() && #[trigger] accepts(rest[i], path, m) {
                let i = choose|i: int| 0 <= i < rest.len() && #[trigger] accepts(rest[i], path, m);
                assert(accepts(routes[i + 1], path, m));
            }
            if next.contains(m) && !acc.contains(m) {
                assert(accepts(routes[0], path, m));
            }
        }
    }
}

/// A request is matched to the first route that has its path and accepts
/// its method, and only to such a route.
pub proof fn lemma_resolve_matched(routes: Seq<RouteView>, path: Seq<char>, method: Method)
    ensures
        match resolve(routes, path, method) {
            Resolution::Matched(i) => {
                &&& 0 <= i < routes.len()
                &&& accepts(routes[i], path, method)
                &&& forall|j: int| 0 <= j < i ==> !accepts(#[trigger] routes[j], path, method)
            },
            _ => forall|j: int|
                0 <= j < routes.len() ==> !accepts(#[trigger] routes[j], path, method),
        },
{
    lemma_first_match(routes, path, method);
}

/// A request is answered with the accepted methods exactly when routes have
/// its path and none of them accepts its method. The list holds each method
/// that such a route accepts once, and so not the request's own; it is not
/// empty where every route accepts some method.
pub proof fn lemma_resolve_not_allowed(routes: Seq<RouteView>, path: Seq<char>, method: Method)
    ensures
        match resolve(routes, path, method) {
            Resolution::MethodNotAllowed(ms) => {
                &&& has_path(routes, path)
                &&& ms == allowed(routes, path)
                &&& !ms.contains(method)
                &&& ms.no_duplicates()
                &&& forall|m: Method|
                    ms.contains(m) <==> exists|i: int|
                        0 <= i < routes.len() && #[trigger] accepts(routes[i], path, m)
                &&& all_accept_something(routes) ==> ms.len() > 0
            },
            Resolution::NotFound => !has_path(routes, path),
            Resolution::Matched(_) => has_path(routes, path),
        },
{
    lemma_first_match(routes, path, method);
    lemma_allowed_from(Seq::empty(), routes, path);
    let ms = allowed(routes, path);
    let none = Seq::<Method>::empty();
    assert(none.no_duplicates());
    assert forall|m: Method|
        ms.contains(m) <==> exists|i: int|
            0 <= i < routes.len() && #[trigger] accepts(routes[i], path, m) by {
        assert(!none.contains(m));
        assert(allowed_from(none, routes, path).contains(m) <==> none.contains(m) || exists|i: int|
            0 <= i < routes.len() && #[trigger] accepts(routes[i], path, m));
    }
    match resolve(routes, path, method) {
        Resolution::MethodNotAllowed(_) => {
            if ms.contains(method) {
                let i = choose|i: int|
                    0 <= i < routes.len() && #[trigger] accepts(routes[i], path, method);
                assert(!accepts(routes[i], path, method));
            }
            if all_accept_something(routes) {
                let i = choose|i: int| 0 <= i < routes.len() && (#[trigger] routes[i]).path == path;
                let m = routes[i].methods[0];
                assert(routes[i].methods.contains(m));
                assert(accepts(routes[i], path, m));
                assert(ms.contains(m));
            }
        },
        Resolution::Matched(i) => {
            assert(routes[i].path == path);
        },
        Resolution::NotFound => {},
    }
}

/// Registration does not change the route that a request is matched to.
pub proof fn lemma_register_keeps_match(
    routes: Seq<RouteView>,
    route: RouteView,
    path: Seq<char>,
    method: Method,
)
    ensures
        resolve(routes, path, method) is Matched ==> resolve(routes.push(route), path, method)
            == resolve(routes, path, method),
{
    let more = routes.push(route);
    lemma_first_match(routes, path, method);
    lemma_first_match(more, path, method);
    let i = first_match(routes, path, method);
    if i < routes.len() {
        assert(is_first_match(more, path, method, i)) by {
            assert forall|j: int| 0 <= j < i implies !accepts(#[trigger] more[j], path, method) by {
                assert(more[j] == routes[j]);
            }
            assert(more[i] == routes[i]);
        }
    }
}

/// Whether `ms` holds `m`.
fn holds_method(ms: &Vec<Method>, m: Method) -> (r: bool)
    ensures
        r == ms@.contains(m),
{
    let mut i: usize = 0;
    while i < ms.len()
        invariant
            i <= ms@.len(),
            forall|j: int| 0 <= j < i ==> ms@[j] != m,
        decreases ms@.len() - i,
    {
        if ms[i] == m {
            return true;
        }
        i += 1;
    }
    false
}

/// Adds to `acc` each method of `ms` that it lacks.
fn add_methods(acc: &mut Vec<Method>, ms: &Vec<Method>)
    ensures
        final(acc)@ == union_methods(old(acc)@, ms@),
{
    let mut i: usize = 0;
    assert(ms@.skip(0) =~= ms@);
    while i < ms.len()
        invariant
            i <= ms@.len(),
            union_methods(old(acc)@, ms@) == union_methods(acc@, ms@.skip(i as int)),
        decreases ms@.len() - i,
    {
        assert(ms@.skip(i as int)[0] == ms@[i as int]);
        assert(ms@.skip(i as int).drop_first() =~= ms@.skip(i + 1));
        if !holds_method(acc, ms[i]) {
            acc.push(ms[i]);
        }
        i += 1;
    }
}

/// Every route accepts at least one method.
pub open spec fn all_accept_something(routes: Seq<RouteView>) -> bool {
    forall|i: int| 0 <= i < routes.len() ==> (#[trigger] routes[i]).methods.len() > 0
}

/// The routes of a server, in the order of their registration. Routes are
/// added and never removed or moved.
pub struct RouteTable<H> {
    routes: Vec<Route<H>>,
}

/// What the table hands out for a request.
pub enum RouteOutcome<'a, H> {
    /// The handler of the route that handles the request.
    Matched(&'a H),
    /// Routes have the path, but none accepts the method; these are the
    /// methods that they accept.
    MethodNotAllowed(Vec<Method>),
    /// No route has the path.
    NotFound,
}

impl<H> View for RouteTable<H> {
    type V = Seq<RouteView>;

    closed spec fn view(&self) -> Seq<RouteView> {
        Seq::new(self.routes@.len(), |i: int| self.routes@[i]@)
    }
}

impl<H> RouteTable<H> {
    #[verifier::type_invariant]
    spec fn well_formed(self) -> bool {
        all_accept_something(self@)
    }

    /// The handler of the route at `i`.
    pub closed spec fn handler_at(self, i: int) -> H {
        self.routes@[i].handler
    }

    /// The table without routes.
    pub fn new() -> (r: Self)
        ensures
            r@ == Seq::<RouteView>::empty(),
    {
        let r = RouteTable { routes: Vec::new() };
        assert(r@ =~= Seq::<RouteView>::empty());
        r
    }

    /// Adds a route after those that are there.
    pub fn register(&mut self, path: String, methods: Vec<Method>, handler: H)
        requires
            methods@.len() > 0,
        ensures
            final(self)@ == old(self)@.push(RouteView { path: path@, methods: methods@ }),
            final(self).handler_at(old(self)@.len() as int) == handler,
            forall|i: int|
                0 <= i < old(self)@.len() ==> final(self).handler_at(i) == old(self).handler_at(i),
    {
        proof {
            use_type_invariant(&*self);
        }
        let ghost before = self@;
        let ghost route = RouteView { path: path@, methods: methods@ };
        let mut routes: Vec<Route<H>> = Vec::new();
        core::mem::swap(&mut self.routes, &mut routes);
        routes.push(Route { path, methods, handler });
        proof {
            let after = Seq::new(routes@.len(), |i: int| routes@[i]@);
            assert(after =~= before.push(route));
            assert forall|i: int| 0 <= i < after.len() implies (#[trigger] after[i]).methods.len()
                > 0 by {
                if i < before.len() {
                    assert(after[i] == before[i]);
                }
            }
        }
        core::mem::swap(&mut self.routes, &mut routes);
        assert(self@ =~= before.push(route));
    }

    /// The number of routes, each of which accepts at least one method.
    pub fn len(&self) -> (n: usize)
        ensures
            n == self@.len(),
            all_accept_something(self@),
    {
        proof {
            use_type_invariant(self);
        }
        self.routes.len()
    }

    /// The route at `i`.
    pub fn route(&self, i: usize) -> (r: &Route<H>)
        requires
            i < self@.len(),
        ensures
            r@ == self@[i as int],
            r.handler == self.handler_at(i as int),
    {
        &self.routes[i]
    }

    /// Chooses the route for a request: the first that has the request's
    /// path and accepts its method. Without one, tells whether the path is
    /// known, and if so which methods are accepted for it.
    ///
    /// The path is compared as it was written in the request, with its query
    /// string if it has one.
    pub fn resolve(&self, request: &HttpRequest) -> (r: RouteOutcome<'_, H>)
        ensures
            match r {
                RouteOutcome::Matched(h) => exists|i: int|
                    resolve(self@, request@.path, request@.method) == Resolution::Matched(i) && *h
                        == #[trigger] self.handler_at(i),
                RouteOutcome::MethodNotAllowed(ms) => resolve(
                    self@,
                    request@.path,
                    request@.method,
                ) == Resolution::MethodNotAllowed(ms@),
                RouteOutcome::NotFound => resolve(self@, request@.path, request@.method)
                    == Resolution::NotFound,
            },
    {
        self.resolve_path(request.path.as_str(), request.method)
    }

    /// Chooses the route for a path and a method, as `resolve` does for
    /// those of a request.
    pub fn resolve_path(&self, path: &str, method: Method) -> (r: RouteOutcome<'_, H>)
        ensures
            match r {
                RouteOutcome::Matched(h) => exists|i: int|
                    resolve(self@, path@, method) == Resolution::Matched(i) && *h
                        == #[trigger] self.handler_at(i),
                RouteOutcome::MethodNotAllowed(ms) => resolve(self@, path@, method)
                    == Resolution::MethodNotAllowed(ms@),
                RouteOutcome::NotFound => resolve(self@, path@, method) == Resolution::NotFound,
            },
    {
        let ghost routes = self@;
        let n: usize = self.routes.len();
        let mut i: usize = 0;
        while i < n
            invariant
                routes == self@,
                n == routes.len(),
                i <= n,
                forall|j: int| 0 <= j < i ==> !accepts(#[trigger] routes[j], path@, method),
            decreases n - i,
        {
            let route = &self.routes[i];
            if same_text(route.path.as_str(), path) && holds_method(&route.methods, method) {
                proof {
                    lemma_first_match(routes, path@, method);
                    assert(is_first_match(routes, path@, method, i as int));
                    assert(route.handler == self.handler_at(i as int));
                }
                return RouteOutcome::Matched(&route.handler);
            }
            i += 1;
        }
        proof {
            lemma_first_match(routes, path@, method);
            assert(is_first_match(routes, path@, method, n as int));
        }
        let mut found: bool = false;
        let mut methods: Vec<Method> = Vec::new();
        let mut k: usize = 0;
        assert(routes.skip(0) =~= routes);
        while k < n
            invariant
                routes == self@,
                n == routes.len(),
                k <= n,
                found == has_path(routes.take(k as int), path@),
                allowed(routes, path@) == allowed_from(methods@, routes.skip(k as int), path@),
            decreases n - k,
        {
            let route = &self.routes[k];
            assert(routes.skip(k as int)[0] == routes[k as int]);
            assert(routes.skip(k as int).drop_first() =~= routes.skip(k + 1));
            let same = same_text(route.path.as_str(), path);
            proof {
                let a = routes.take(k as int);
                let b = routes.take(k + 1);
                if has_path(a, path@) {
                    let w = choose|w: int| 0 <= w < a.len() && (#[trigger] a[w]).path == path@;
                    assert(b[w].path == path@);
                }
                if same {
                    assert(b[k as int].path == path@);
                }
                if has_path(b, path@) && !same {
                    let w = choose|w: int| 0 <= w < b.len() && (#[trigger] b[w]).path == path@;
                    assert(a[w].path == path@);
                }
            }
            if same {
                found = true;
                add_methods(&mut methods, &route.methods);
            }
            k += 1;
        }
        assert(routes.take(n as int) =~= routes);
        if found {
            RouteOutcome::MethodNotAllowed(methods)
        } else {
            RouteOutcome::NotFound
        }
    }
}

} // verus!
