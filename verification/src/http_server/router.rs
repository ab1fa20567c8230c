//! Routes and the router: which handler answers which method and path.

use crate::error::AnyErr;
use crate::http_server::request::HttpMethod;
use crate::http_server::request::Request;
use crate::http_server::request::RequestModel;
use crate::http_server::response::default_response;
use crate::http_server::response::Response;
use crate::http_server::response::ResponseBuilder;
use crate::http_server::response::ResponseModel;
use crate::string_map::distinct_keys;
use crate::string_map::has_key;
use crate::string_map::key_at;
use crate::string_map::lemma_map_of_entry;
use crate::string_map::lemma_put;
use crate::string_map::position_of;
use crate::string_map::put;
use crate::text::has_text;
use crate::text::joined_with;
use crate::text::lemma_filter_keeps_all;
use crate::text::lemma_joined_with_first;
use crate::text::lemma_pieces_of_joined;
use crate::text::non_empty;
use crate::text::pieces;
use crate::text::split;
use crate::text::texts;
use crate::text::Delimiter;
use vstd::prelude::*;
use vstd::utf8::encode_utf8;

verus! {

/// What answers a request.
pub trait RouteHandler: Send + Sync {
    /// Whether `result` may be this handler's answer to `request`. A handler
    /// that promises something of its answers says it here; one that does
    /// not promises nothing.
    open spec fn answers(&self, request: RequestModel, result: Result<Response, AnyErr>) -> bool {
        true
    }

    /// Answers a request, as [`answers`](RouteHandler::answers) says.
    fn handle(&self, request: Request) -> (r: Result<Response, AnyErr>)
        ensures
            self.answers(request@, r),
    ;
}

/// A method and the segments of a path pattern.
pub struct Route {
    pub http_method: HttpMethod,
    pub path_segments: Vec<String>,
}

/// What identifies a route: its method and its segments.
pub type RouteKey = (HttpMethod, Seq<Seq<char>>);

/// The segments of a path: its pieces between `/`, without the empty ones.
pub open spec fn path_segments(path: Seq<char>) -> Seq<Seq<char>> {
    pieces(path, Delimiter::Char('/')).filter(has_text())
}

/// Whether a pattern segment accepts a request segment: the wildcard `*`
/// accepts any, another pattern only itself.
pub open spec fn segment_matches(pattern: Seq<char>, segment: Seq<char>) -> bool {
    pattern == "*"@ || pattern == segment
}

/// Whether a pattern accepts the segments of a request, one for one.
pub open spec fn segments_match(pattern: Seq<Seq<char>>, request: Seq<Seq<char>>) -> bool {
    &&& pattern.len() == request.len()
    &&& forall|i: int| 0 <= i < pattern.len() ==> segment_matches(#[trigger] pattern[i], request[i])
}

/// Whether a route answers a request for `path` with `method`.
pub open spec fn route_matches(route: RouteKey, method: HttpMethod, path: Seq<char>) -> bool {
    route.0 == method && segments_match(route.1, path_segments(path))
}

impl View for Route {
    type V = RouteKey;

    open spec fn view(&self) -> RouteKey {
        (self.http_method, texts(self.path_segments@))
    }
}

impl Route {
    /// The route `GET /`.
    pub fn new() -> (r: Self)
        ensures
            r@ == (HttpMethod::GET, Seq::<Seq<char>>::empty()),
    {
        let r = Route { http_method: HttpMethod::GET, path_segments: Vec::new() };
        assert(texts(r.path_segments@) == Seq::<Seq<char>>::empty());
        r
    }

    /// Sets the method and keeps the pattern.
    pub fn http_method(self, method: HttpMethod) -> (r: Self)
        ensures
            r@ == (method, self@.1),
    {
        Route { http_method: method, path_segments: self.path_segments }
    }

    /// Sets the pattern to the segments of `path`.
    pub fn path(self, path: String) -> (r: Self)
        ensures
            r@ == (self@.0, path_segments(path@)),
    {
        let segments = non_empty(split(path.as_str(), Delimiter::Char('/')));
        Route { http_method: self.http_method, path_segments: segments }
    }

    /// Whether this route answers a request for `path` with `http_method`:
    /// the methods are equal, the path has as many segments as the pattern,
    /// and every pattern segment is `*` or equal to the request's.
    pub fn matches(&self, http_method: &HttpMethod, path: &str) -> (r: bool)
        ensures
            r == route_matches(self@, *http_method, path@),
    {
        if self.http_method != *http_method {
            return false;
        }
        let request_segments = non_empty(split(path, Delimiter::Char('/')));
        if self.path_segments.len() != request_segments.len() {
            return false;
        }
        let ghost pattern = texts(self.path_segments@);
        let ghost request = texts(request_segments@);
        let mut i: usize = 0;
        while i < self.path_segments.len()
            invariant
                i <= self.path_segments.len(),
                self.path_segments.len() == request_segments.len(),
                self.http_method == *http_method,
                pattern == texts(self.path_segments@),
                request == texts(request_segments@),
                request == path_segments(path@),
                forall|j: int| 0 <= j < i ==> segment_matches(#[trigger] pattern[j], request[j]),
            decreases self.path_segments.len() - i,
        {
            let route_segment = self.path_segments[i].as_str();
            let request_segment = request_segments[i].as_str();
            if !(*route_segment == *"*") && !(*route_segment == *request_segment) {
                assert(!segment_matches(pattern[i as int], request[i as int]));
                return false;
            }
            i += 1;
        }
        true
    }

    /// Whether the two routes have the same method and segments.
    pub fn same_as(&self, other: &Route) -> (r: bool)
        ensures
            r == (self@ == other@),
    {
        if self.http_method != other.http_method {
            return false;
        }
        if self.path_segments.len() != other.path_segments.len() {
            assert(texts(self.path_segments@).len() != texts(other.path_segments@).len());
            return false;
        }
        let ghost mine = texts(self.path_segments@);
        let ghost theirs = texts(other.path_segments@);
        let mut i: usize = 0;
        while i < self.path_segments.len()
            invariant
                i <= self.path_segments.len(),
                self.path_segments.len() == other.path_segments.len(),
                mine == texts(self.path_segments@),
                theirs == texts(other.path_segments@),
                forall|j: int| 0 <= j < i ==> mine[j] == theirs[j],
            decreases self.path_segments.len() - i,
        {
            if !(*self.path_segments[i].as_str() == *other.path_segments[i].as_str()) {
                assert(mine[i as int] != theirs[i as int]);
                return false;
            }
            i += 1;
        }
        assert(mine =~= theirs);
        true
    }
}

/// Whether two patterns of segments leave room for a path that both accept:
/// they are equally long and, place by place, the segments are equal or one
/// of them is the wildcard.
pub open spec fn segments_overlap(a: Seq<Seq<char>>, b: Seq<Seq<char>>) -> bool {
    &&& a.len() == b.len()
    &&& forall|i: int|
        0 <= i < a.len() ==> (#[trigger] a[i]) == "*"@ || b[i] == "*"@ || a[i] == b[i]
}

/// Whether two routes leave room for a request that both answer.
pub open spec fn routes_overlap(a: RouteKey, b: RouteKey) -> bool {
    a.0 == b.0 && segments_overlap(a.1, b.1)
}

impl Route {
    /// Whether some request may be answered by this route and by `other`
    /// alike. Which of two such routes a router picks depends on the order
    /// in which they were added, so a table of routes should hold no such
    /// pair.
    pub fn overlaps(&self, other: &Route) -> (r: bool)
        ensures
            r == routes_overlap(self@, other@),
    {
        if self.http_method != other.http_method {
            return false;
        }
        if self.path_segments.len() != other.path_segments.len() {
            assert(texts(self.path_segments@).len() != texts(other.path_segments@).len());
            return false;
        }
        let ghost mine = texts(self.path_segments@);
        let ghost theirs = texts(other.path_segments@);
        let mut i: usize = 0;
        while i < self.path_segments.len()
            invariant
                i <= self.path_segments.len(),
                self.path_segments.len() == other.path_segments.len(),
                mine == texts(self.path_segments@),
                theirs == texts(other.path_segments@),
                forall|j: int|
                    0 <= j < i ==> (#[trigger] mine[j]) == "*"@ || theirs[j] == "*"@ || mine[j]
                        == theirs[j],
            decreases self.path_segments.len() - i,
        {
            let a = self.path_segments[i].as_str();
            let b = other.path_segments[i].as_str();
            if !(*a == *"*") && !(*b == *"*") && !(*a == *b) {
                assert(!(mine[i as int] == "*"@ || theirs[i as int] == "*"@ || mine[i as int]
                    == theirs[i as int]));
                return false;
            }
            i += 1;
        }
        true
    }
}

impl HttpMethod {
    /// The route for `GET` requests to `path`.
    pub fn get(path: &str) -> (r: Route)
        ensures
            r@ == (HttpMethod::GET, path_segments(path@)),
    {
        Route::new().http_method(HttpMethod::GET).path(path.to_owned())
    }

    /// The route for `POST` requests to `path`.
    pub fn post(path: &str) -> (r: Route)
        ensures
            r@ == (HttpMethod::POST, path_segments(path@)),
    {
        Route::new().http_method(HttpMethod::POST).path(path.to_owned())
    }
}

/// Whether `i` is the first binding whose route answers the request.
pub open spec fn is_first_match<H>(
    bindings: Seq<(RouteKey, H)>,
    method: HttpMethod,
    path: Seq<char>,
    i: int,
) -> bool {
    &&& 0 <= i < bindings.len()
    &&& route_matches(bindings[i].0, method, path)
    &&& forall|j: int| 0 <= j < i ==> !route_matches((#[trigger] bindings[j]).0, method, path)
}

/// Whether some binding's route answers the request.
pub open spec fn some_match<H>(
    bindings: Seq<(RouteKey, H)>,
    method: HttpMethod,
    path: Seq<char>,
) -> bool {
    exists|i: int| 0 <= i < bindings.len() && route_matches((#[trigger] bindings[i]).0, method, path)
}

/// The page that a new router answers with when no route matches.
pub const NOT_FOUND_PAGE: &'static str =
    "<!DOCTYPE html>\n<html>\n<head><title>404 Not Found</title></head>\n<body><h1>404 Not Found</h1></body>\n</html>\n";

/// The response that a new router answers with when no route matches.
pub open spec fn default_not_found() -> ResponseModel {
    (ResponseModel {
        status_code: 404,
        reason_phrase: "Not Found"@,
        ..default_response()
    }).with_body(encode_utf8(NOT_FOUND_PAGE@))
}

/// Routes bound to handlers of type `H`, and the response for requests that
/// no route answers. No two bindings have the same route.
pub struct Router<H> {
    routes: Vec<(Route, H)>,
    not_found_response: Response,
}

impl<H> Router<H> {
    /// The bindings in the order in which their routes were first added.
    pub closed spec fn bindings(&self) -> Seq<(RouteKey, H)> {
        self.routes@.map_values(|e: (Route, H)| (e.0@, e.1))
    }

    /// The response for requests that no route answers.
    pub closed spec fn fallback(&self) -> ResponseModel {
        self.not_found_response@
    }

    #[verifier::type_invariant]
    spec fn routes_are_distinct(&self) -> bool {
        distinct_keys(self.bindings())
    }

    /// A router without routes, which answers 404 with a small page.
    pub fn new() -> (r: Self)
        ensures
            r.bindings() == Seq::<(RouteKey, H)>::empty(),
            r.fallback() == default_not_found(),
    {
        let r = Router { routes: Vec::new(), not_found_response: default_not_found_response() };
        assert(r.bindings() == Seq::<(RouteKey, H)>::empty());
        r
    }

    /// The handler of the first route, in the order of registration, that
    /// answers the request; `None` exactly when no route does.
    pub fn route(&self, method: HttpMethod, path: &str) -> (r: Option<&H>)
        ensures
            match r {
                Some(h) => exists|i: int|
                    is_first_match(self.bindings(), method, path@, i) && *h
                        == self.bindings()[i].1,
                None => !some_match(self.bindings(), method, path@),
            },
    {
        let mut i: usize = 0;
        while i < self.routes.len()
            invariant
                i <= self.routes.len(),
                forall|j: int|
                    0 <= j < i ==> !route_matches((#[trigger] self.bindings()[j]).0, method, path@),
            decreases self.routes.len() - i,
        {
            if self.routes[i].0.matches(&method, path) {
                assert(is_first_match(self.bindings(), method, path@, i as int));
                return Some(&self.routes[i].1);
            }
            i += 1;
        }
        None
    }

    /// Binds `route` to `handler`. A route that is already bound keeps its
    /// place and takes the new handler; a new one goes last.
    pub fn add_route(self, route: Route, handler: H) -> (r: Self)
        ensures
            r.bindings() == put(self.bindings(), route@, handler),
            r.fallback() == self.fallback(),
    {
        proof {
            use_type_invariant(&self);
        }
        let ghost before = self.bindings();
        let ghost key = route@;
        proof {
            lemma_put(before, key, handler);
        }
        let mut routes = self.routes;
        let mut found: Option<usize> = None;
        let mut i: usize = 0;
        while i < routes.len() && found.is_none()
            invariant
                i <= routes.len(),
                before == routes@.map_values(|e: (Route, H)| (e.0@, e.1)),
                distinct_keys(before),
                key == route@,
                match found {
                    Some(p) => key_at(before, key, p as int),
                    None => forall|j: int| 0 <= j < i ==> !key_at(before, key, j),
                },
            decreases routes.len() - i + (if found.is_none() { 1nat } else { 0nat }),
        {
            if routes[i].0.same_as(&route) {
                found = Some(i);
            } else {
                i += 1;
            }
        }
        match found {
            Some(p) => {
                proof {
                    lemma_map_of_entry(before, p as int);
                }
                routes.remove(p);
                routes.insert(p, (route, handler));
            },
            None => {
                assert(!has_key(before, key)) by {
                    if has_key(before, key) {
                        assert(key_at(before, key, position_of(before, key)));
                    }
                }
                routes.push((route, handler));
            },
        }
        assert(routes@.map_values(|e: (Route, H)| (e.0@, e.1)) =~= put(before, key, handler));
        Router { routes, not_found_response: self.not_found_response }
    }

    /// Sets the response for requests that no route answers.
    pub fn not_found_response(self, response: Response) -> (r: Self)
        ensures
            r.bindings() == self.bindings(),
            r.fallback() == response@,
    {
        proof {
            use_type_invariant(&self);
        }
        Router { routes: self.routes, not_found_response: response }
    }

    /// The response for requests that no route answers.
    pub fn not_found(&self) -> (r: &Response)
        ensures
            r@ == self.fallback(),
    {
        &self.not_found_response
    }

    /// The places of two routes that overlap, if there are any: the table
    /// is free of such pairs exactly when the answer is `None`.
    pub fn first_overlap(&self) -> (r: Option<(usize, usize)>)
        ensures
            match r {
                Some((i, j)) => i < j < self.bindings().len() && routes_overlap(
                    self.bindings()[i as int].0,
                    self.bindings()[j as int].0,
                ),
                None => forall|i: int, j: int|
                    0 <= i < j < self.bindings().len() ==> !routes_overlap(
                        (#[trigger] self.bindings()[i]).0,
                        (#[trigger] self.bindings()[j]).0,
                    ),
            },
    {
        let n: usize = self.routes.len();
        let mut i: usize = 0;
        while i < n
            invariant
                i <= n,
                n == self.routes.len(),
                forall|a: int, b: int|
                    0 <= a < b < n && a < i ==> !routes_overlap(
                        (#[trigger] self.bindings()[a]).0,
                        (#[trigger] self.bindings()[b]).0,
                    ),
            decreases n - i,
        {
            let mut j: usize = i + 1;
            while j < n
                invariant
                    i < j <= n,
                    n == self.routes.len(),
                    forall|a: int, b: int|
                        0 <= a < b < n && a < i ==> !routes_overlap(
                            (#[trigger] self.bindings()[a]).0,
                            (#[trigger] self.bindings()[b]).0,
                        ),
                    forall|b: int|
                        i < b < j ==> !routes_overlap(
                            self.bindings()[i as int].0,
                            (#[trigger] self.bindings()[b]).0,
                        ),
                decreases n - j,
            {
                if self.routes[i].0.overlaps(&self.routes[j].0) {
                    return Some((i, j));
                }
                j += 1;
            }
            i += 1;
        }
        None
    }

    /// The number of bindings.
    pub fn len(&self) -> (r: usize)
        ensures
            r == self.bindings().len(),
    {
        self.routes.len()
    }
}

/// Status 404 with a small HTML page.
pub fn default_not_found_response() -> (r: Response)
    ensures
        r@ == default_not_found(),
{
    let page_404 = NOT_FOUND_PAGE.to_owned();
    ResponseBuilder::new().status_code(404).reason_phrase("Not Found".to_owned()).body_string(
        page_404,
    ).build()
}

/// A route never answers a request made with another method.
pub proof fn lemma_method_must_agree(route: RouteKey, method: HttpMethod, path: Seq<char>)
    requires
        route.0 != method,
    ensures
        !route_matches(route, method, path),
{
}

/// A route answers only paths with as many segments as its pattern has: a
/// wildcard stands for one segment, never for none or for several.
pub proof fn lemma_segment_counts_agree(route: RouteKey, method: HttpMethod, path: Seq<char>)
    requires
        route_matches(route, method, path),
    ensures
        path_segments(path).len() == route.1.len(),
{
}

/// The wildcard accepts every segment; any other pattern segment accepts
/// itself alone.
pub proof fn lemma_wildcard(pattern: Seq<char>, segment: Seq<char>)
    ensures
        segment_matches("*"@, segment),
        pattern != "*"@ ==> (segment_matches(pattern, segment) <==> pattern == segment),
{
}

/// The path that names these segments: a `/`, then the segments with a `/`
/// between each two.
pub open spec fn path_of(segments: Seq<Seq<char>>) -> Seq<char> {
    seq!['/'] + joined_with(segments, '/')
}

/// Whether every segment has at least one character and none holds a `/`.
pub open spec fn plain_segments(segments: Seq<Seq<char>>) -> bool {
    forall|i: int|
        0 <= i < segments.len() ==> (#[trigger] segments[i]).len() > 0 && forall|j: int|
            0 <= j < segments[i].len() ==> segments[i][j] != '/'
}

/// A path written from its segments has exactly those segments.
pub proof fn lemma_segments_of_path(segments: Seq<Seq<char>>)
    requires
        plain_segments(segments),
    ensures
        path_segments(path_of(segments)) == segments,
{
    let d = Delimiter::Char('/');
    let none = Seq::<char>::empty();
    let path = path_of(segments);
    if segments.len() == 0 {
        assert(joined_with(segments, '/') == none);
        assert(path == seq!['/']);
        assert(path.drop_last() == none);
        assert(pieces(none, d) == seq![none]);
        assert(pieces(path, d) == seq![none].push(none));
        let both = seq![none].push(none);
        reveal_with_fuel(Seq::filter, 3);
        assert(both.drop_last() == seq![none]);
        assert(seq![none].drop_last() == Seq::<Seq<char>>::empty());
        assert(both.filter(has_text()) == Seq::<Seq<char>>::empty());
    } else {
        let parts = seq![none] + segments;
        assert(parts.first() == none);
        assert(parts.drop_first() == segments);
        lemma_joined_with_first(parts, '/');
        assert(none + seq!['/'] + joined_with(segments, '/') == path);
        assert forall|i: int, j: int| 0 <= i < parts.len() && 0 <= j < parts[i].len() implies (
        #[trigger] parts[i][j]) != '/' by {
            assert(parts[i] == segments[i - 1]);
        }
        lemma_pieces_of_joined(parts, '/');
        Seq::filter_distributes_over_add(seq![none], segments, has_text());
        reveal_with_fuel(Seq::filter, 2);
        assert(seq![none].drop_last() == Seq::<Seq<char>>::empty());
        assert(seq![none].filter(has_text()) == Seq::<Seq<char>>::empty());
        lemma_filter_keeps_all(segments, has_text());
        assert(Seq::<Seq<char>>::empty() + segments == segments);
    }
}

/// A route that ends in a wildcard answers a path that goes on after the
/// route's other segments exactly when it goes on by one segment: the
/// wildcard stands for one segment, never for none or for several.
pub proof fn lemma_wildcard_takes_one_segment(
    method: HttpMethod,
    prefix: Seq<Seq<char>>,
    rest: Seq<Seq<char>>,
)
    requires
        plain_segments(prefix),
        plain_segments(rest),
    ensures
        route_matches((method, prefix.push("*"@)), method, path_of(prefix + rest)) <==> rest.len()
            == 1,
{
    let request = prefix + rest;
    assert(plain_segments(request)) by {
        assert forall|i: int| 0 <= i < request.len() implies (#[trigger] request[i]).len() > 0
            && forall|j: int| 0 <= j < request[i].len() ==> request[i][j] != '/' by {
            if i < prefix.len() {
                assert(request[i] == prefix[i]);
            } else {
                assert(request[i] == rest[i - prefix.len()]);
            }
        }
    }
    lemma_segments_of_path(request);
    let pattern = prefix.push("*"@);
    if rest.len() == 1 {
        assert forall|i: int| 0 <= i < pattern.len() implies segment_matches(
            #[trigger] pattern[i],
            request[i],
        ) by {
            if i < prefix.len() {
                assert(pattern[i] == prefix[i]);
                assert(request[i] == prefix[i]);
            }
        }
    }
}

/// Two routes that answer the same request overlap.
pub proof fn lemma_common_request_means_overlap(
    a: RouteKey,
    b: RouteKey,
    method: HttpMethod,
    path: Seq<char>,
)
    requires
        route_matches(a, method, path),
        route_matches(b, method, path),
    ensures
        routes_overlap(a, b),
{
    let request = path_segments(path);
    assert forall|i: int| 0 <= i < a.1.len() implies (#[trigger] a.1[i]) == "*"@ || b.1[i] == "*"@
        || a.1[i] == b.1[i] by {
        assert(segment_matches(a.1[i], request[i]));
        assert(segment_matches(b.1[i], request[i]));
    }
}

/// The segments of a request that two overlapping patterns both accept: at
/// each place the segment of the first pattern, or that of the second where
/// the first has the wildcard.
pub open spec fn common_segments(a: Seq<Seq<char>>, b: Seq<Seq<char>>) -> Seq<Seq<char>> {
    Seq::new(
        a.len(),
        |i: int|
            if a[i] == "*"@ {
                b[i]
            } else {
                a[i]
            },
    )
}

/// Two overlapping routes, written with plain segments, do answer a common
/// request: overlap is no false alarm.
pub proof fn lemma_overlap_means_common_request(a: RouteKey, b: RouteKey)
    requires
        routes_overlap(a, b),
        plain_segments(a.1),
        plain_segments(b.1),
    ensures
        route_matches(a, a.0, path_of(common_segments(a.1, b.1))),
        route_matches(b, a.0, path_of(common_segments(a.1, b.1))),
{
    let request = common_segments(a.1, b.1);
    assert(plain_segments(request)) by {
        assert forall|i: int| 0 <= i < request.len() implies (#[trigger] request[i]).len() > 0
            && forall|j: int| 0 <= j < request[i].len() ==> request[i][j] != '/' by {
            assert(request[i] == a.1[i] || request[i] == b.1[i]);
        }
    }
    lemma_segments_of_path(request);
    assert forall|i: int| 0 <= i < a.1.len() implies segment_matches(
        #[trigger] a.1[i],
        request[i],
    ) by {}
    assert forall|i: int| 0 <= i < b.1.len() implies segment_matches(
        #[trigger] b.1[i],
        request[i],
    ) by {
        assert(a.1[i] == "*"@ || b.1[i] == "*"@ || a.1[i] == b.1[i]);
    }
}

} // verus!
