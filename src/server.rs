use vstd::prelude::*;
use vstd::slice::slice_to_vec;
use vstd::string::StringSliceAdditionalSpecFns;
use core::marker::PhantomData;

use crate::http::{
    has_target, is_get, is_request_line, lemma_request_line_parts, method_is_get, method_of,
    split_request_line, target_of, Status,
};
use crate::router::Router;

verus! {

/// The pool size a builder starts with.
pub const DEFAULT_POOL_SIZE: usize = 5;

/// Builder state: no host supplied yet.
pub struct NoHost;

/// Builder state: a host has been supplied.
pub struct Host;

/// The bytes of a request line, where one could be read.
pub open spec fn line_bytes(line: Option<&str>) -> Option<Seq<u8>> {
    match line {
        Some(s) => Some(s.spec_bytes()),
        None => None,
    }
}

/// What becomes of a request: the handler that serves it, or the status
/// that answers it at once.
pub open spec fn decide<H>(line: Option<Seq<u8>>, routes: Map<Seq<u8>, H>) -> Result<H, Status> {
    match line {
        None => Err(Status::BadRequest),
        Some(b) => if !has_target(b) {
            Err(Status::BadRequest)
        } else if !is_get(method_of(b)) {
            Err(Status::MethodNotAllowed)
        } else if routes.contains_key(target_of(b)) {
            Ok(routes[target_of(b)])
        } else {
            Err(Status::NotFound)
        },
    }
}

/// A `GET` (in any case) for a registered path goes to that path's handler.
pub proof fn lemma_registered_get_is_served<H>(
    line: Seq<u8>,
    method: Seq<u8>,
    path: Seq<u8>,
    routes: Map<Seq<u8>, H>,
)
    requires
        is_request_line(line, method, path),
        is_get(method),
        routes.contains_key(path),
    ensures
        decide(Some(line), routes) == Ok::<H, Status>(routes[path]),
{
    lemma_request_line_parts(line, method, path);
}

/// A `GET` for a path that is not registered is answered `404 NOT FOUND`, with no body.
pub proof fn lemma_unregistered_get_not_found<H>(
    line: Seq<u8>,
    method: Seq<u8>,
    path: Seq<u8>,
    routes: Map<Seq<u8>, H>,
)
    requires
        is_request_line(line, method, path),
        is_get(method),
        !routes.contains_key(path),
    ensures
        decide(Some(line), routes) == Err::<H, Status>(Status::NotFound),
        Status::NotFound.spec_text() == "HTTP/1.1 404 NOT FOUND\r\n\r\n"@,
{
    lemma_request_line_parts(line, method, path);
}

/// Any method other than `GET` is answered `405 Method Not Allowed`, whatever
/// the path and whether or not it is registered.
pub proof fn lemma_other_method_not_allowed<H>(
    line: Seq<u8>,
    method: Seq<u8>,
    path: Seq<u8>,
    routes: Map<Seq<u8>, H>,
)
    requires
        is_request_line(line, method, path),
        !is_get(method),
    ensures
        decide(Some(line), routes) == Err::<H, Status>(Status::MethodNotAllowed),
        Status::MethodNotAllowed.spec_text() == "HTTP/1.1 405 Method Not Allowed\r\n\r\n"@,
{
    lemma_request_line_parts(line, method, path);
}

/// A connection that yields no request line is answered `400 BAD REQUEST`.
pub proof fn lemma_no_line_bad_request<H>(routes: Map<Seq<u8>, H>)
    ensures
        decide(None, routes) == Err::<H, Status>(Status::BadRequest),
        Status::BadRequest.spec_text() == "HTTP/1.1 400 BAD REQUEST\r\n\r\n"@,
{
}

/// Configuration in progress; `T` is `NoHost` until a host is supplied, then `Host`.
pub struct Builder<T, H> {
    host: String,
    routes: Router<H>,
    pool_size: usize,
    state: PhantomData<T>,
}

impl<T, H> Builder<T, H> {
    pub closed spec fn spec_host(&self) -> Seq<char> {
        self.host@
    }

    pub closed spec fn spec_routes(&self) -> Map<Seq<u8>, H> {
        self.routes@
    }

    pub closed spec fn spec_pool_size(&self) -> nat {
        self.pool_size as nat
    }

    /// The route table is well formed and the pool size is at least one.
    pub closed spec fn wf(&self) -> bool {
        self.routes.wf() && self.pool_size >= 1
    }

    /// Sets how many workers the server will run.
    pub fn set_pool_size(self, size: usize) -> (r: Self)
        requires
            self.wf(),
            size >= 1,
        ensures
            r.wf(),
            r.spec_pool_size() == size,
            r.spec_host() == self.spec_host(),
            r.spec_routes() == self.spec_routes(),
    {
        Builder { host: self.host, routes: self.routes, pool_size: size, state: PhantomData }
    }

    pub fn pool_size(&self) -> (r: usize)
        ensures
            r == self.spec_pool_size(),
    {
        self.pool_size
    }
}

impl<H> Default for Builder<NoHost, H> {
    /// No host, no routes, the default pool size.
    fn default() -> (r: Self)
        ensures
            r.wf(),
            r.spec_host() == Seq::<char>::empty(),
            r.spec_routes() == Map::<Seq<u8>, H>::empty(),
            r.spec_pool_size() == DEFAULT_POOL_SIZE,
    {
        Builder { host: String::new(), routes: Router::new(), pool_size: DEFAULT_POOL_SIZE, state: PhantomData }
    }
}

impl<H> Builder<NoHost, H> {
    /// Supplies the address to listen on; routes can be added from then on.
    pub fn add_host(self, host: &str) -> (r: Builder<Host, H>)
        requires
            self.wf(),
            host@.len() > 0,
        ensures
            r.ready(),
            r.spec_host() == host@,
            r.spec_routes() == self.spec_routes(),
            r.spec_pool_size() == self.spec_pool_size(),
    {
        Builder { host: host.to_owned(), routes: self.routes, pool_size: self.pool_size, state: PhantomData }
    }
}

impl<H> Builder<Host, H> {
    /// Well formed, and a host is set.
    pub closed spec fn ready(&self) -> bool {
        self.wf() && self.host@.len() > 0
    }

    /// Registers `handler` for `path`, replacing an earlier one for the same path.
    pub fn add_route(self, path: &str, handler: H) -> (r: Self)
        requires
            self.ready(),
            path@.len() > 0 && path@[0] == '/',
        ensures
            r.ready(),
            r.spec_host() == self.spec_host(),
            r.spec_routes() == self.spec_routes().insert(path.spec_bytes(), handler),
            r.spec_pool_size() == self.spec_pool_size(),
    {
        let mut routes = self.routes;
        routes.insert(slice_to_vec(path.as_bytes()), handler);
        Builder { host: self.host, routes, pool_size: self.pool_size, state: PhantomData }
    }

    /// Ends configuration.
    pub fn build(self) -> (r: Server<H>)
        requires
            self.ready(),
        ensures
            r.spec_host() == self.spec_host(),
            r.spec_routes() == self.spec_routes(),
            r.spec_pool_size() == self.spec_pool_size(),
            r.spec_host().len() > 0,
            r.spec_pool_size() >= 1,
    {
        Server { host: self.host, routes: self.routes, pool_size: self.pool_size }
    }
}

/// A configured server: its address, its routes and its pool size, fixed from
/// here on.
pub struct Server<H> {
    host: String,
    routes: Router<H>,
    pool_size: usize,
}

impl<H> Server<H> {
    #[verifier::type_invariant]
    closed spec fn inv(&self) -> bool {
        self.host@.len() > 0 && self.pool_size >= 1 && self.routes.wf()
    }

    pub closed spec fn spec_host(&self) -> Seq<char> {
        self.host@
    }

    pub closed spec fn spec_routes(&self) -> Map<Seq<u8>, H> {
        self.routes@
    }

    pub closed spec fn spec_pool_size(&self) -> nat {
        self.pool_size as nat
    }

    pub fn host(&self) -> (r: &str)
        ensures
            r@ == self.spec_host(),
            r@.len() > 0,
    {
        proof {
            use_type_invariant(self);
        }
        self.host.as_str()
    }

    pub fn pool_size(&self) -> (r: usize)
        ensures
            r == self.spec_pool_size(),
            r >= 1,
    {
        proof {
            use_type_invariant(self);
        }
        self.pool_size
    }

    /// Decides what becomes of a request from its first line (`None` where no
    /// line could be read).
    pub fn dispatch(&self, line: Option<&str>) -> (r: Result<&H, Status>)
        ensures
            match r {
                Ok(h) => decide(line_bytes(line), self.spec_routes()) == Ok::<H, Status>(*h),
                Err(s) => decide(line_bytes(line), self.spec_routes()) == Err::<H, Status>(s),
            },
    {
        let text = match line {
            Some(s) => s,
            None => return Err(Status::BadRequest),
        };
        match split_request_line(text.as_bytes()) {
            None => Err(Status::BadRequest),
            Some((method, path)) => {
                if !method_is_get(method) {
                    Err(Status::MethodNotAllowed)
                } else {
                    proof {
                        use_type_invariant(self);
                    }
                    match self.routes.get(path) {
                        Some(h) => Ok(h),
                        None => Err(Status::NotFound),
                    }
                }
            },
        }
    }
}

} // verus!
