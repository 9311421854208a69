//! The route table: an ordered list of routes, resolved first match first.

use crate::request::Method;
use crate::text::{chars_of, starts_with};
use crate::types::ServerFunction;
use vstd::prelude::*;

verus! {

/// One entry of the route table.
pub struct Route {
    path: String,
    method: Method,
    api_function: ServerFunction,
    exact: bool,
}

/// What a route says, as plain values.
pub ghost struct RouteView {
    /// The pattern a request path is held against.
    pub path: Seq<char>,
    pub method: Method,
    /// The handler the route names.
    pub api_function: ServerFunction,
    /// Whether the path must equal the pattern or only begin with it.
    pub exact: bool,
}

impl View for Route {
    type V = RouteView;

    closed spec fn view(&self) -> RouteView {
        RouteView {
            path: self.path@,
            method: self.method,
            api_function: self.api_function,
            exact: self.exact,
        }
    }
}

/// Collects the parts of a route one by one.
pub struct RouteBuilder {
    path: Option<String>,
    method: Option<Method>,
    api_function: Option<ServerFunction>,
    exact: Option<bool>,
}

/// The parts a builder has been given so far.
pub ghost struct RouteBuilderView {
    pub path: Option<Seq<char>>,
    pub method: Option<Method>,
    pub api_function: Option<ServerFunction>,
    pub exact: Option<bool>,
}

impl View for RouteBuilder {
    type V = RouteBuilderView;

    closed spec fn view(&self) -> RouteBuilderView {
        RouteBuilderView {
            path: match self.path {
                Some(p) => Some(p@),
                None => None,
            },
            method: self.method,
            api_function: self.api_function,
            exact: self.exact,
        }
    }
}

impl RouteBuilderView {
    /// True once every part has been given.
    pub open spec fn complete(self) -> bool {
        self.path is Some && self.method is Some && self.api_function is Some && self.exact is Some
    }
}

impl RouteBuilder {
    /// A builder that has been given nothing yet.
    pub fn new() -> (b: Self)
        ensures
            b@ == (RouteBuilderView { path: None, method: None, api_function: None, exact: None }),
    {
        Self { path: None, method: None, api_function: None, exact: None }
    }

    /// Sets the path pattern.
    pub fn path(self, path: &str) -> (b: Self)
        ensures
            b@ == (RouteBuilderView { path: Some(path@), ..self@ }),
    {
        Self { path: Some(path.to_owned()), ..self }
    }

    /// Sets the method.
    pub fn method(self, method: Method) -> (b: Self)
        ensures
            b@ == (RouteBuilderView { method: Some(method), ..self@ }),
    {
        Self { method: Some(method), ..self }
    }

    /// Sets the handler.
    pub fn api_function(self, api_function: ServerFunction) -> (b: Self)
        ensures
            b@ == (RouteBuilderView { api_function: Some(api_function), ..self@ }),
    {
        Self { api_function: Some(api_function), ..self }
    }

    /// Sets the match mode: `true` for exact, `false` for prefix.
    pub fn exact(self, exact: bool) -> (b: Self)
        ensures
            b@ == (RouteBuilderView { exact: Some(exact), ..self@ }),
    {
        Self { exact: Some(exact), ..self }
    }

    /// The route made of the parts given. Every part must have been set.
    pub fn build(self) -> (r: Route)
        requires
            self@.complete(),
        ensures
            r@ == (RouteView {
                path: self@.path->0,
                method: self@.method->0,
                api_function: self@.api_function->0,
                exact: self@.exact->0,
            }),
    {
        Route {
            path: self.path.unwrap(),
            method: self.method.unwrap(),
            api_function: self.api_function.unwrap(),
            exact: self.exact.unwrap(),
        }
    }
}

/// True when `route` accepts a request for `path` with `method`: the methods
/// are equal, and the path equals the pattern (exact) or begins with it
/// (prefix, with no regard to segment boundaries).
pub open spec fn route_matches(route: RouteView, path: Seq<char>, method: Method) -> bool {
    route.method == method && if route.exact {
        route.path == path
    } else {
        route.path.is_prefix_of(path)
    }
}

/// The handler of the first route in `routes` that matches, if any does.
pub open spec fn resolve(routes: Seq<RouteView>, path: Seq<char>, method: Method) -> Option<
    ServerFunction,
>
    decreases routes.len(),
{
    if routes.len() == 0 {
        None
    } else if route_matches(routes[0], path, method) {
        Some(routes[0].api_function)
    } else {
        resolve(routes.drop_first(), path, method)
    }
}

/// The table the server runs with.
pub open spec fn production_table() -> Seq<RouteView> {
    seq![
        RouteView { path: "/"@, method: Method::Get, api_function: ServerFunction::Home, exact: true },
        RouteView {
            path: "/echo"@,
            method: Method::Get,
            api_function: ServerFunction::Echo,
            exact: false,
        },
        RouteView {
            path: "/user-agent"@,
            method: Method::Get,
            api_function: ServerFunction::UserAgent,
            exact: true,
        },
        RouteView {
            path: "/files"@,
            method: Method::Get,
            api_function: ServerFunction::FileGet,
            exact: false,
        },
        RouteView {
            path: "/files"@,
            method: Method::Post,
            api_function: ServerFunction::FilePost,
            exact: false,
        },
    ]
}

/// An ordered route table. Order matters: the first matching route wins.
pub struct Routes(Vec<Route>);

impl View for Routes {
    type V = Seq<RouteView>;

    closed spec fn view(&self) -> Seq<RouteView> {
        self.0@.map_values(|r: Route| r@)
    }
}

impl Routes {
    /// A table that holds `routes` in the order given.
    pub fn new(routes: Vec<Route>) -> (t: Self)
        ensures
            t@ == routes@.map_values(|r: Route| r@),
    {
        Self(routes)
    }

    /// Resolves a method and path to the handler of the first route that
    /// matches; `None` when no route does.
    pub fn get_api_function(&self, path: String, method: Method) -> (f: Option<ServerFunction>)
        ensures
            f == resolve(self@, path@, method),
    {
        let wanted = chars_of(path.as_str());
        let mut i: usize = 0;
        assert(self@.skip(0) =~= self@);
        while i < self.0.len()
            invariant
                i <= self.0.len(),
                wanted@ == path@,
                resolve(self@, path@, method) == resolve(self@.skip(i as int), path@, method),
            decreases self.0.len() - i,
        {
            let route = &self.0[i];
            let ghost rest = self@.skip(i as int);
            assert(rest[0] == route@);
            assert(rest.drop_first() =~= self@.skip(i + 1));
            if route.method == method {
                let hit = if route.exact {
                    route.path == path
                } else {
                    let pattern = chars_of(route.path.as_str());
                    starts_with(&wanted, &pattern)
                };
                if hit {
                    return Some(route.api_function);
                }
            }
            i += 1;
        }
        None
    }

    /// Builds the table the server runs with.
    pub fn init() -> (t: Self)
        ensures
            t@ == production_table(),
    {
        let routes = vec![
            RouteBuilder::new().path("/").method(Method::Get).api_function(
                ServerFunction::Home,
            ).exact(true).build(),
            RouteBuilder::new().path("/echo").method(Method::Get).api_function(
                ServerFunction::Echo,
            ).exact(false).build(),
            RouteBuilder::new().path("/user-agent").method(Method::Get).api_function(
                ServerFunction::UserAgent,
            ).exact(true).build(),
            RouteBuilder::new().path("/files").method(Method::Get).api_function(
                ServerFunction::FileGet,
            ).exact(false).build(),
            RouteBuilder::new().path("/files").method(Method::Post).api_function(
                ServerFunction::FilePost,
            ).exact(false).build(),
        ];
        let t = Self(routes);
        assert(t@ =~= production_table());
        t
    }
}

/// Resolution is sensitive to order: a route that matches, with no matching
/// route listed before it, is the one whose handler is chosen, whatever
/// follows it in the table.
pub proof fn lemma_first_match_wins(
    routes: Seq<RouteView>,
    path: Seq<char>,
    method: Method,
    i: int,
)
    requires
        0 <= i < routes.len(),
        route_matches(routes[i], path, method),
        forall|j: int| 0 <= j < i ==> !route_matches(#[trigger] routes[j], path, method),
    ensures
        resolve(routes, path, method) == Some(routes[i].api_function),
    decreases i,
{
    if i > 0 {
        let rest = routes.drop_first();
        assert forall|j: int| 0 <= j < i - 1 implies !route_matches(
            #[trigger] rest[j],
            path,
            method,
        ) by {
            assert(rest[j] == routes[j + 1]);
        }
        lemma_first_match_wins(rest, path, method, i - 1);
    }
}

/// When no route of the table matches, nothing is resolved; and when nothing
/// is resolved, no route matches.
pub proof fn lemma_unresolved(routes: Seq<RouteView>, path: Seq<char>, method: Method)
    ensures
        resolve(routes, path, method) is None <==> forall|j: int|
            0 <= j < routes.len() ==> !route_matches(#[trigger] routes[j], path, method),
    decreases routes.len(),
{
    if routes.len() > 0 {
        let rest = routes.drop_first();
        lemma_unresolved(rest, path, method);
        if !route_matches(routes[0], path, method) {
            if resolve(rest, path, method) is None {
                assert forall|j: int| 0 <= j < routes.len() implies !route_matches(
                    #[trigger] routes[j],
                    path,
                    method,
                ) by {
                    if j > 0 {
                        assert(routes[j] == rest[j - 1]);
                    }
                }
            } else {
                let j = choose|j: int|
                    0 <= j < rest.len() && route_matches(#[trigger] rest[j], path, method);
                assert(routes[j + 1] == rest[j]);
            }
        }
    }
}

} // verus!
