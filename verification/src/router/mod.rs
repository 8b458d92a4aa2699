pub mod route;

use vstd::prelude::*;
use crate::request::{Request, RequestView};
use crate::response::{Reason, Response, ResponseBuilder, ResponseParts};
use crate::http::method::str_eq;

pub use route::{
    paired, pairs_view, parameter_names, regex_captures, regex_compiles, regex_match,
    route_pattern, route_to_regex, valid_route, without_trailing_slashes, RegexError, Route,
    RouteView,
};

verus! {

/// Whether a route is the route of a request.
pub open spec fn route_matches(route: RouteView, request: RequestView) -> bool {
    route.method == request.method && regex_match(
        route.pattern,
        without_trailing_slashes(request.path),
    ) == Some(true)
}

/// Whether route `i` is the first of the list that is the route of the request.
pub open spec fn first_match(routes: Seq<RouteView>, request: RequestView, i: int) -> bool {
    &&& 0 <= i < routes.len()
    &&& route_matches(routes[i], request)
    &&& forall|j: int| 0 <= j < i ==> !route_matches(#[trigger] routes[j], request)
}

/// Whether some route of the list is the route of the request.
pub open spec fn any_match(routes: Seq<RouteView>, request: RequestView) -> bool {
    exists|i: int| 0 <= i < routes.len() && route_matches(#[trigger] routes[i], request)
}

/// The answer to a request that no route takes, where no other was set:
/// status 404 and no body.
pub fn default_not_found(_req: &Request) -> (r: Response)
    ensures
        r@ == ResponseParts::of_status(Reason::NOTFOUND404).response(),
{
    ResponseBuilder::empty_404().build().unwrap()
}

/// The value that a list of named values gives to a name: that of the last
/// entry with the name, if there is one.
pub open spec fn value_of(pairs: Seq<(Seq<char>, Seq<char>)>, name: Seq<char>) -> Option<Seq<char>>
    decreases pairs.len(),
{
    if pairs.len() == 0 {
        None
    } else if pairs.last().0 == name {
        Some(pairs.last().1)
    } else {
        value_of(pairs.drop_last(), name)
    }
}

/// The parameters of a route as a request fills them: each parameter name
/// with the value that the path of the request gives it.
#[derive(Debug)]
pub struct Params {
    pairs: Vec<(String, String)>,
}

impl View for Params {
    type V = Seq<(Seq<char>, Seq<char>)>;

    /// The names with their values, in the order of the route.
    closed spec fn view(&self) -> Seq<(Seq<char>, Seq<char>)> {
        pairs_view(self.pairs@)
    }
}

impl Params {
    /// How many parameters have a value.
    pub fn len(&self) -> (n: usize)
        ensures
            n == self@.len(),
    {
        self.pairs.len()
    }

    /// The value of the parameter `name`.
    pub fn get(&self, name: &str) -> (r: Option<&String>)
        ensures
            match r {
                Some(value) => value_of(self@, name@) == Some(value@),
                None => value_of(self@, name@) is None,
            },
    {
        let ghost all = self@;
        let mut i: usize = self.pairs.len();
        assert(all.take(i as int) =~= all);
        while i > 0
            invariant
                i <= self.pairs.len(),
                all == self@,
                all.len() == self.pairs.len(),
                value_of(all, name@) == value_of(all.take(i as int), name@),
            decreases i,
        {
            let ghost front = all.take(i as int);
            assert(front.last() == (self.pairs[i - 1].0@, self.pairs[i - 1].1@));
            assert(front.drop_last() =~= all.take(i - 1));
            if str_eq(self.pairs[i - 1].0.as_str(), name) {
                return Some(&self.pairs[i - 1].1);
            }
            i = i - 1;
        }
        None
    }
}

/// The parameters as the map that a handler takes.
fn to_map(pairs: &Vec<(String, String)>) -> (map: Params)
    ensures
        map@ == pairs_view(pairs@),
{
    let mut copied: Vec<(String, String)> = Vec::new();
    let mut i: usize = 0;
    while i < pairs.len()
        invariant
            i <= pairs.len(),
            copied.len() == i,
            forall|j: int|
                0 <= j < i ==> (#[trigger] copied[j]).0@ == pairs[j].0@ && copied[j].1@
                    == pairs[j].1@,
        decreases pairs.len() - i,
    {
        copied.push((pairs[i].0.clone(), pairs[i].1.clone()));
        i = i + 1;
    }
    let map = Params { pairs: copied };
    assert(map@ =~= pairs_view(pairs@));
    map
}

/// Maps requests to handlers by their routes. Of two routes that take the
/// same request, the one added first is used.
pub struct Router<H, N> {
    routes: Vec<(Route, H)>,
    not_found: Option<N>,
}

impl<H: Fn(&Request, Params) -> Response, N: Fn(&Request) -> Response> Router<
    H,
    N,
> {
    /// The routes in the order in which they were added.
    pub closed spec fn routes(&self) -> Seq<RouteView> {
        Seq::new(self.routes.len() as nat, |i: int| self.routes[i].0@)
    }

    /// The handlers, each at the place of its route.
    pub closed spec fn handlers(&self) -> Seq<H> {
        Seq::new(self.routes.len() as nat, |i: int| self.routes[i].1)
    }

    /// The handler for requests that no route takes, if one was set.
    pub closed spec fn fallback(&self) -> Option<N> {
        self.not_found
    }

    /// A router without routes.
    pub fn new() -> (r: Router<H, N>)
        ensures
            r.routes() == Seq::<RouteView>::empty(),
            r.handlers() == Seq::<H>::empty(),
            r.fallback() is None,
    {
        let r = Router { routes: Vec::new(), not_found: None };
        assert(r.routes() =~= Seq::<RouteView>::empty());
        assert(r.handlers() =~= Seq::<H>::empty());
        r
    }

    /// How many routes the router holds.
    pub fn len(&self) -> (n: usize)
        ensures
            n == self.routes().len(),
    {
        self.routes.len()
    }

    /// The place of the first route that takes the request.
    fn find(&self, req: &Request) -> (r: Option<usize>)
        ensures
            match r {
                Some(i) => first_match(self.routes(), req@, i as int),
                None => !any_match(self.routes(), req@),
            },
    {
        let mut i: usize = 0;
        while i < self.routes.len()
            invariant
                i <= self.routes.len(),
                forall|j: int| 0 <= j < i ==> !route_matches(#[trigger] self.routes()[j], req@),
            decreases self.routes.len() - i,
        {
            if self.routes[i].0.is_match(req) {
                assert(self.routes()[i as int] == self.routes[i as int].0@);
                return Some(i);
            }
            assert(self.routes()[i as int] == self.routes[i as int].0@);
            i = i + 1;
        }
        None
    }

    /// Whether some route takes the request.
    pub fn is_matching(&self, req: &Request) -> (r: bool)
        ensures
            r == any_match(self.routes(), req@),
    {
        self.find(req).is_some()
    }

    /// Adds a route with its handler, unless the same route is there already.
    pub fn add_route(&mut self, route: Route, handler: H)
        ensures
            final(self).fallback() == old(self).fallback(),
            if exists|i: int|
                0 <= i < old(self).routes().len() && (#[trigger] old(self).routes()[i]).pattern
                    == route@.pattern && old(self).routes()[i].method == route@.method {
                final(self).routes() == old(self).routes() && final(self).handlers() == old(
                    self,
                ).handlers()
            } else {
                final(self).routes() == old(self).routes().push(route@) && final(self).handlers()
                    == old(self).handlers().push(handler)
            },
    {
        let mut i: usize = 0;
        while i < self.routes.len()
            invariant
                i <= self.routes.len(),
                *self == *old(self),
                forall|j: int|
                    0 <= j < i ==> !((#[trigger] self.routes()[j]).pattern == route@.pattern
                        && self.routes()[j].method == route@.method),
            decreases self.routes.len() - i,
        {
            assert(self.routes()[i as int] == self.routes[i as int].0@);
            if route.same_route(&self.routes[i].0) {
                return ;
            }
            i = i + 1;
        }
        self.routes.push((route, handler));
        assert(final(self).routes() =~= old(self).routes().push(route@));
        assert(final(self).handlers() =~= old(self).handlers().push(handler));
    }

    /// Sets the handler for requests that no route takes.
    pub fn set_not_found_handler(&mut self, handler: N)
        ensures
            final(self).fallback() == Some(handler),
            final(self).routes() == old(self).routes(),
            final(self).handlers() == old(self).handlers(),
    {
        self.not_found = Some(handler);
    }

    /// Answers a request with the handler of the first route that takes it,
    /// which gets the parameters of the route with the values that the
    /// path of the request gives them. A request that no route
    /// takes is answered by the handler set for that, or with status 404.
    /// Where the parameters of the route cannot be read the answer is
    /// status 500.
    pub fn exec(&self, req: &Request) -> (r: Response)
        requires
            forall|i: int, request: &Request, params: Params|
                0 <= i < self.handlers().len() ==> #[trigger] self.handlers()[i].requires(
                    (request, params),
                ),
            self.fallback() matches Some(handler) ==> forall|request: &Request| #[trigger]
                handler.requires((request,)),
        ensures
            !any_match(self.routes(), req@) ==> match self.fallback() {
                Some(handler) => handler.ensures((req,), r),
                None => r@ == ResponseParts::of_status(Reason::NOTFOUND404).response(),
            },
            forall|i: int|
                first_match(self.routes(), req@, i) ==> {
                    let captured = regex_captures(
                        self.routes()[i].pattern,
                        without_trailing_slashes(req@.path),
                        self.routes()[i].parameters,
                    );
                    match captured {
                        Some(values) => exists|params: Params|
                            params@ == paired(self.routes()[i].parameters, values)
                                && self.handlers()[i].ensures((req, params), r),
                        None => r@ == ResponseParts::of_status(Reason::INTERNAL500).response(),
                    }
                },
    {
        match self.find(req) {
            Some(found) => {
                proof {
                    assert forall|i: int| first_match(self.routes(), req@, i) implies i
                        == found by {
                        if i < found {
                            assert(!route_matches(self.routes()[i], req@));
                        }
                        if found < i {
                            assert(!route_matches(self.routes()[found as int], req@));
                        }
                    }
                    assert(self.routes()[found as int] == self.routes[found as int].0@);
                    assert(self.handlers()[found as int] == self.routes[found as int].1);
                }
                let parameters = match self.routes[found].0.parse_request(req) {
                    Some(pairs) => to_map(&pairs),
                    None => {
                        return ResponseBuilder::empty_500().build().unwrap();
                    },
                };
                let handler = &self.routes[found].1;
                handler(req, parameters)
            },
            None => {
                proof {
                    assert forall|i: int| !first_match(self.routes(), req@, i) by {}
                }
                match &self.not_found {
                    Some(handler) => handler(req),
                    None => default_not_found(req),
                }
            },
        }
    }
}

} // verus!
