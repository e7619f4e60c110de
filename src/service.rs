use vstd::prelude::*;
use vstd::utf8::encode_utf8;

use crate::method::{method_of_name, Method};
use crate::params::ParamMap;
use crate::query::{parse_target_args, target_args};
use crate::request::{body_of, extract_body, head_view, http_head, read_head, RawHead};
use crate::response::{not_found_line, server_error_line, str_bytes};
use crate::router::{extract_params, first_match, strip_query, CallbackPathManager};

verus! {

/// What to do with one connection's request.
pub enum Dispatch {
    /// The head could not be read: answer with the bare 500 line.
    Malformed,
    /// No route answers, and no fallback route is registered: answer with
    /// the bare 404 line.
    NotFound,
    /// Call the handler registered at position `route`.
    Handle { route: usize, params: ParamMap, args: ParamMap, body: Vec<u8> },
}

/// The method a request is routed under: its named method, or GET where the
/// name is not one of the known methods.
pub open spec fn routed_method(name: Seq<char>) -> Method {
    match method_of_name(name) {
        Some(m) => m,
        None => Method::GET,
    }
}

/// The handler call that a route makes of a request.
pub open spec fn handles(
    d: Dispatch,
    i: int,
    routes: Seq<(Method, Seq<char>)>,
    path: Seq<char>,
    target: Seq<char>,
    data: Seq<u8>,
) -> bool {
    match d {
        Dispatch::Handle { route, params, args, body } => {
            &&& route == i
            &&& params@ == extract_params(path, routes[i].1)
            &&& args@ == target_args(target)
            &&& body@ == body_of(data)
        },
        _ => false,
    }
}

/// The decision for a request whose head reads as `head`: reject an
/// unusable head; else call the first route for the request's method that
/// fits its path; else the first GET route for the path `404`; else answer
/// 404.
pub open spec fn dispatch_spec(
    d: Dispatch,
    routes: Seq<(Method, Seq<char>)>,
    head: Option<(Option<Seq<char>>, Option<Seq<char>>, nat)>,
    data: Seq<u8>,
) -> bool {
    match head {
        Some((Some(name), Some(target), n)) if n > 0 => {
            match first_match(routes, routed_method(name), target) {
                Some(i) => handles(d, i, routes, strip_query(target), target, data),
                None => match first_match(routes, Method::GET, "404"@) {
                    Some(j) => handles(d, j, routes, strip_query("404"@), target, data),
                    None => d is NotFound,
                },
            }
        },
        _ => d is Malformed,
    }
}

/// The bytes answered at once, without a handler, for a decision.
pub open spec fn immediate_answer(d: Dispatch) -> Option<Seq<u8>> {
    match d {
        Dispatch::Malformed => Some(encode_utf8(server_error_line())),
        Dispatch::NotFound => Some(encode_utf8(not_found_line())),
        Dispatch::Handle { .. } => None,
    }
}

impl Dispatch {
    /// The bytes to answer with at once, where no handler is called.
    pub fn answer(&self) -> (r: Option<Vec<u8>>)
        ensures
            match r {
                Some(b) => immediate_answer(*self) == Some(b@),
                None => immediate_answer(*self) is None,
            },
    {
        match self {
            Dispatch::Malformed => Some(str_bytes("HTTP/1.1 500 INTERNAL SERVER ERROR")),
            Dispatch::NotFound => Some(str_bytes("HTTP/1.1 404 NOT FOUND")),
            Dispatch::Handle { .. } => None,
        }
    }
}

/// A server: its bind address, its route table and the handle through
/// which handlers reach the shared application state.
pub struct WebService<H, S> {
    addr: String,
    path_manager: CallbackPathManager<H>,
    shared_data: S,
}

impl<H, S> WebService<H, S> {
    /// The registered (method, pattern) pairs, in registration order.
    pub closed spec fn routes(&self) -> Seq<(Method, Seq<char>)> {
        self.path_manager@
    }

    /// The address the server binds.
    pub closed spec fn spec_addr(&self) -> Seq<char> {
        self.addr@
    }

    /// The handle to the shared application state.
    pub closed spec fn spec_shared(&self) -> S {
        self.shared_data
    }

    /// The route table, handlers included.
    pub closed spec fn spec_manager(&self) -> CallbackPathManager<H> {
        self.path_manager
    }

    /// A server for `addr` with no routes, holding the shared-state handle.
    pub fn new(addr: &str, shared_data: S) -> (r: Self)
        ensures
            r.spec_addr() == addr@,
            r.routes() == Seq::<(Method, Seq<char>)>::empty(),
            r.spec_shared() == shared_data,
    {
        WebService { addr: addr.to_owned(), path_manager: CallbackPathManager::new(), shared_data }
    }

    /// Adds a route for `method` on `pattern`, after every route already
    /// registered.
    pub fn register(self, pattern: &str, method: Method, handler: H) -> (r: Self)
        ensures
            r.routes() == self.routes().push((method, pattern@)),
            r.spec_manager().handler_at(self.routes().len() as int) == handler,
            forall|i: int|
                0 <= i < self.routes().len() ==> r.spec_manager().handler_at(i)
                    == self.spec_manager().handler_at(i),
            r.spec_addr() == self.spec_addr(),
            r.spec_shared() == self.spec_shared(),
    {
        let mut s = self;
        s.path_manager.register(method, pattern, handler);
        s
    }

    /// The bind address.
    pub fn addr(&self) -> (r: &str)
        ensures
            r@ == self.spec_addr(),
    {
        self.addr.as_str()
    }

    /// The shared-state handle given to every handler.
    pub fn shared_data(&self) -> (r: &S)
        ensures
            *r == self.spec_shared(),
    {
        &self.shared_data
    }

    /// The route table.
    pub fn path_manager(&self) -> (r: &CallbackPathManager<H>)
        ensures
            *r == self.spec_manager(),
            r@ == self.routes(),
    {
        &self.path_manager
    }

    /// Decides what to do with the request in `data`, whose head read as
    /// `head`.
    pub fn dispatch_head(&self, head: RawHead, data: &[u8]) -> (r: Dispatch)
        ensures
            dispatch_spec(r, self.routes(), head_view(head), data@),
    {
        let (name, target, count) = match head {
            Some((Some(name), Some(target), count)) => (name, target, count),
            _ => {
                return Dispatch::Malformed;
            },
        };
        if count == 0 {
            return Dispatch::Malformed;
        }
        let method = match Method::from_name(name.as_str()) {
            Some(m) => m,
            None => Method::GET,
        };
        let found = match self.path_manager.find(method, target.as_str()) {
            Some(f) => Some(f),
            None => self.path_manager.find(Method::GET, "404"),
        };
        match found {
            Some((route, params)) => {
                let args = parse_target_args(target.as_str());
                let body = extract_body(data);
                Dispatch::Handle { route, params, args, body }
            },
            None => Dispatch::NotFound,
        }
    }

    /// Decides what to do with the request in `data`: reads its head, then
    /// routes it.
    pub fn dispatch(&self, data: &[u8]) -> (r: Dispatch)
        ensures
            dispatch_spec(r, self.routes(), http_head(data@), data@),
    {
        let head = read_head(data);
        self.dispatch_head(head, data)
    }
}

} // verus!
