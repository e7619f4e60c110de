use vstd::prelude::*;

use crate::method::Method;
use crate::params::ParamMap;
use crate::text::{find_char, lemma_split_first, split_on, split_str, str_eq, strings_view};

verus! {

/// A pattern segment written `{name}` matches any path segment.
pub open spec fn is_wildcard(seg: Seq<char>) -> bool {
    seg.len() >= 2 && seg[0] == '{' && seg.last() == '}'
}

/// The name between the braces of a wildcard segment.
pub open spec fn wildcard_name(seg: Seq<char>) -> Seq<char> {
    seg.subrange(1, seg.len() - 1)
}

/// Path segments fit pattern segments: as many of each, and every pattern
/// segment is a wildcard or equal to the path segment at its position.
pub open spec fn segments_match(path: Seq<Seq<char>>, pat: Seq<Seq<char>>) -> bool {
    &&& path.len() == pat.len()
    &&& forall|i: int| 0 <= i < pat.len() ==> is_wildcard(#[trigger] pat[i]) || pat[i] == path[i]
}

/// A path fits a pattern, both split at `/`.
pub open spec fn pattern_matches(path: Seq<char>, pattern: Seq<char>) -> bool {
    segments_match(split_on(path, '/'), split_on(pattern, '/'))
}

/// The names that the first `n` pattern segments bind to the path segments
/// at the same positions; a later wildcard of the same name wins.
pub open spec fn bind_segments(path: Seq<Seq<char>>, pat: Seq<Seq<char>>, n: nat) -> Map<
    Seq<char>,
    Seq<char>,
>
    decreases n,
{
    if n == 0 {
        Map::empty()
    } else {
        let m = bind_segments(path, pat, (n - 1) as nat);
        if is_wildcard(pat[n - 1]) {
            m.insert(wildcard_name(pat[n - 1]), path[n - 1])
        } else {
            m
        }
    }
}

/// The parameters that a pattern binds on a path, pairing segments by
/// position as far as both reach.
pub open spec fn extract_params(path: Seq<char>, pattern: Seq<char>) -> Map<Seq<char>, Seq<char>> {
    let ps = split_on(path, '/');
    let qs = split_on(pattern, '/');
    bind_segments(ps, qs, if ps.len() <= qs.len() { ps.len() } else { qs.len() })
}

/// A request target without its query: what comes before the first `?`.
pub open spec fn strip_query(target: Seq<char>) -> Seq<char> {
    split_on(target, '?')[0]
}

/// Whether a registered route answers `m` on the query-free `path`.
pub open spec fn route_matches(r: (Method, Seq<char>), m: Method, path: Seq<char>) -> bool {
    r.0 == m && pattern_matches(path, r.1)
}

/// The first route at or after position `i` that answers `m` on `path`.
pub open spec fn first_match_from(
    routes: Seq<(Method, Seq<char>)>,
    m: Method,
    path: Seq<char>,
    i: int,
) -> Option<int>
    decreases routes.len() - i,
{
    if i < 0 || i >= routes.len() {
        None
    } else if route_matches(routes[i], m, path) {
        Some(i)
    } else {
        first_match_from(routes, m, path, i + 1)
    }
}

/// The route that answers `m` on the request target `target`: the first
/// registered one whose pattern fits the target's path.
pub open spec fn first_match(routes: Seq<(Method, Seq<char>)>, m: Method, target: Seq<char>) -> Option<
    int,
> {
    first_match_from(routes, m, strip_query(target), 0)
}

/// Whether a pattern segment is a wildcard.
pub fn is_wildcard_segment(seg: &str) -> (r: bool)
    ensures
        r == is_wildcard(seg@),
{
    let n = seg.unicode_len();
    n >= 2 && seg.get_char(0) == '{' && seg.get_char(n - 1) == '}'
}

/// The path part of a request target, before any `?`.
pub fn path_of_target(target: &str) -> (r: &str)
    ensures
        r@ == strip_query(target@),
{
    match find_char(target, '?') {
        Some(k) => {
            proof {
                lemma_split_first(target@, '?', k as int);
            }
            target.substring_char(0, k)
        },
        None => {
            proof {
                lemma_split_first(target@, '?', target@.len() as int);
                assert(target@.take(target@.len() as int) =~= target@);
            }
            let n = target.unicode_len();
            target.substring_char(0, n)
        },
    }
}

struct Route<H> {
    method: Method,
    pattern: String,
    handler: H,
}

/// The route table: every (method, pattern, handler) registration, kept in
/// the order it was made. Earlier registrations take precedence.
pub struct CallbackPathManager<H> {
    routes: Vec<Route<H>>,
}

impl<H> CallbackPathManager<H> {
    /// The registered (method, pattern) pairs, in registration order.
    pub closed spec fn view(&self) -> Seq<(Method, Seq<char>)> {
        self.routes@.map_values(|r: Route<H>| (r.method, r.pattern@))
    }

    /// The handler registered at position `i`.
    pub closed spec fn handler_at(&self, i: int) -> H {
        self.routes@[i].handler
    }

    /// An empty table.
    pub fn new() -> (r: Self)
        ensures
            r@ == Seq::<(Method, Seq<char>)>::empty(),
    {
        let r = CallbackPathManager { routes: Vec::new() };
        assert(r@ =~= Seq::empty());
        r
    }

    /// The number of registered routes.
    pub fn len(&self) -> (r: usize)
        ensures
            r == self@.len(),
    {
        self.routes.len()
    }

    /// Appends a route for `method`; the pattern is not checked.
    pub fn register(&mut self, method: Method, pattern: &str, handler: H)
        ensures
            final(self)@ == old(self)@.push((method, pattern@)),
            final(self).handler_at(old(self)@.len() as int) == handler,
            forall|i: int|
                0 <= i < old(self)@.len() ==> final(self).handler_at(i) == old(self).handler_at(i),
    {
        let ghost before = self@;
        self.routes.push(Route { method, pattern: pattern.to_owned(), handler });
        assert(self@ =~= before.push((method, pattern@)));
    }

    /// The handler registered at position `i`.
    pub fn handler(&self, i: usize) -> (r: &H)
        requires
            i < self@.len(),
        ensures
            *r == self.handler_at(i as int),
    {
        &self.routes[i].handler
    }

    /// Whether `path` fits `pattern`, segment by segment.
    pub fn compare(path: &str, pattern: &str) -> (r: bool)
        ensures
            r == pattern_matches(path@, pattern@),
    {
        let ps = split_str(path, '/');
        let qs = split_str(pattern, '/');
        if ps.len() != qs.len() {
            return false;
        }
        let mut i: usize = 0;
        while i < qs.len()
            invariant
                strings_view(ps@) == split_on(path@, '/'),
                strings_view(qs@) == split_on(pattern@, '/'),
                ps@.len() == qs@.len(),
                i <= qs@.len(),
                forall|j: int|
                    0 <= j < i ==> is_wildcard(#[trigger] split_on(pattern@, '/')[j])
                        || split_on(pattern@, '/')[j] == split_on(path@, '/')[j],
            decreases qs@.len() - i,
        {
            let wild = is_wildcard_segment(qs[i].as_str());
            if !wild && !str_eq(ps[i].as_str(), qs[i].as_str()) {
                assert(!is_wildcard(split_on(pattern@, '/')[i as int]));
                return false;
            }
            i = i + 1;
        }
        true
    }

    /// The parameters that `pattern`'s wildcards bind on `path`.
    pub fn extract(path: &str, pattern: &str) -> (r: ParamMap)
        ensures
            r@ == extract_params(path@, pattern@),
    {
        let ps = split_str(path, '/');
        let qs = split_str(pattern, '/');
        let n = if ps.len() <= qs.len() {
            ps.len()
        } else {
            qs.len()
        };
        let mut params = ParamMap::new();
        let mut i: usize = 0;
        while i < n
            invariant
                strings_view(ps@) == split_on(path@, '/'),
                strings_view(qs@) == split_on(pattern@, '/'),
                n <= ps@.len(),
                n <= qs@.len(),
                i <= n,
                params@ == bind_segments(
                    split_on(path@, '/'),
                    split_on(pattern@, '/'),
                    i as nat,
                ),
            decreases n - i,
        {
            let seg = qs[i].as_str();
            if is_wildcard_segment(seg) {
                let len = seg.unicode_len();
                let name = seg.substring_char(1, len - 1).to_owned();
                params.insert(name, ps[i].clone());
            }
            i = i + 1;
        }
        params
    }

    /// The first route for `method` whose pattern fits the path of
    /// `target` (any query is ignored), with the parameters it binds.
    pub fn find(&self, method: Method, target: &str) -> (r: Option<(usize, ParamMap)>)
        ensures
            match r {
                None => first_match(self@, method, target@) is None,
                Some((i, params)) => {
                    &&& first_match(self@, method, target@) == Some(i as int)
                    &&& params@ == extract_params(strip_query(target@), self@[i as int].1)
                },
            },
    {
        let path = path_of_target(target);
        let mut i: usize = 0;
        while i < self.routes.len()
            invariant
                path@ == strip_query(target@),
                i <= self@.len(),
                self@.len() == self.routes@.len(),
                first_match(self@, method, target@) == first_match_from(self@, method, path@, i as int),
            decreases self@.len() - i,
        {
            let route = &self.routes[i];
            if route.method == method && Self::compare(path, route.pattern.as_str()) {
                return Some((i, Self::extract(path, route.pattern.as_str())));
            }
            i = i + 1;
        }
        None
    }
}

} // verus!
