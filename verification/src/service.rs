//! The service side of the contract: how a connection is established and
//! how individual requests on that connection are turned into responses.

use vstd::prelude::*;
use crate::body::Body;
use crate::body::reversed;

verus! {

/// An HTTP request with a streaming body. The envelope metadata (method,
/// target, headers) is never manufactured or read by this contract; only
/// the payload matters here.
pub struct Request {
    /// The request payload.
    pub body: Body,
}

impl Request {
    /// Wrap a body into a request envelope.
    pub fn new(body: Body) -> (req: Self)
        ensures
            req.body == body,
    {
        Request { body }
    }

    /// Take the payload out of the envelope.
    pub fn into_body(self) -> (body: Body)
        ensures
            body == self.body,
    {
        self.body
    }
}

/// An HTTP response with a streaming body. A response carrying an error
/// status code is a successful value at this layer, not an error.
pub struct Response {
    /// The status code of the response.
    pub status: u16,
    /// The response payload.
    pub body: Body,
}

impl Response {
    /// Wrap a body into a response envelope with the default status, 200.
    pub fn new(body: Body) -> (resp: Self)
        ensures
            resp.body == body,
            resp.status == 200,
    {
        Response { status: 200, body }
    }

    /// Take the payload out of the envelope.
    pub fn into_body(self) -> (body: Body)
        ensures
            body == self.body,
    {
        self.body
    }
}

/// An HTTP service.
///
/// An instance represents a service as a whole. The associated
/// `Connection` type represents a particular connection and may carry
/// connection-specific state; `Error` is the service's failure type for
/// both operations. An implementor states what its operations guarantee
/// through the `connect_ensures` and `respond_ensures` predicates, and
/// what `respond` may demand of a caller through `respond_requires`.
pub trait HttpService: Sized {
    /// Per-connection state, created by `connect` and handed back, with
    /// exclusive access, on every request of that connection.
    type Connection;

    /// The error type of both operations. An error from either is fatal to
    /// the connection.
    type Error;

    /// What this service guarantees of every `connect` outcome.
    spec fn connect_ensures(&self, r: Result<Self::Connection, Self::Error>) -> bool;

    /// What this service demands before `respond` is called.
    spec fn respond_requires(&self, conn: Self::Connection, req: Request) -> bool;

    /// What this service guarantees of every `respond` outcome, relating
    /// the connection state before the call, the request, the result, and
    /// the connection state after the call.
    spec fn respond_ensures(
        &self,
        conn: Self::Connection,
        req: Request,
        r: Result<Response, Self::Error>,
        conn_after: Self::Connection,
    ) -> bool;

    /// Initiate a new connection. Called once per connection, before any
    /// request on it; an error is fatal to the connection attempt, and no
    /// `respond` call may follow it.
    fn connect(&self) -> (r: Result<Self::Connection, Self::Error>)
        ensures
            self.connect_ensures(r),
    ;

    /// Handle a single request on an established connection. The handler
    /// has shared access to the service and exclusive access to that
    /// connection's state. An error is fatal to the connection; an HTTP
    /// error is better reported as a `Response` with an error status code.
    fn respond(&self, conn: &mut Self::Connection, req: Request) -> (r: Result<
        Response,
        Self::Error,
    >)
        requires
            self.respond_requires(*old(conn), req),
        ensures
            self.respond_ensures(*old(conn), req, r, *final(conn)),
    ;
}

/// Any plain function from a request to a response-or-error result is a
/// full service: its connection type is the unit type, `connect` always
/// succeeds with that empty value, and `respond` ignores the connection
/// and invokes the function.
impl<F, E> HttpService for F where F: Fn(Request) -> Result<Response, E> {
    type Connection = ();

    type Error = E;

    open spec fn connect_ensures(&self, r: Result<(), E>) -> bool {
        r is Ok
    }

    open spec fn respond_requires(&self, conn: (), req: Request) -> bool {
        call_requires(*self, (req,))
    }

    open spec fn respond_ensures(
        &self,
        conn: (),
        req: Request,
        r: Result<Response, E>,
        conn_after: (),
    ) -> bool {
        call_ensures(*self, (req,), r)
    }

    fn connect(&self) -> (r: Result<(), E>) {
        Ok(())
    }

    fn respond(&self, conn: &mut (), req: Request) -> (r: Result<Response, E>) {
        (self)(req)
    }
}

/// What serving one connection produced.
pub enum ConnectionOutcome<E> {
    /// `connect` failed with this error: the connection was closed before
    /// any `respond` call was issued.
    Refused(E),
    /// `connect` succeeded. The responses answer the requests in order;
    /// a `respond` error, fatal to the connection, ends the exchange and
    /// leaves the remaining requests unanswered.
    Served(Vec<Response>, Option<E>),
}

/// The responses of one served connection, explained: a sequence of
/// connection states, starting with one that `connect` produced, links
/// each request to its response through `respond_ensures`. A fatal error,
/// if any, is a `respond` outcome on the first unanswered request, and the
/// state it left behind closes the sequence.
#[verifier::inline]
pub open spec fn serve_trace<S: HttpService>(
    service: S,
    conns: Seq<S::Connection>,
    reqs: Seq<Request>,
    resps: Seq<Response>,
    fatal: Option<S::Error>,
) -> bool {
    &&& resps.len() <= reqs.len()
    &&& service.connect_ensures(Ok(conns[0]))
    &&& forall|i: int|
        0 <= i < resps.len() ==> service.respond_ensures(
            conns[i],
            reqs[i],
            Ok(resps[i]),
            conns[i + 1],
        )
    &&& match fatal {
        None => conns.len() == resps.len() + 1 && resps.len() == reqs.len(),
        Some(e) => {
            &&& conns.len() == resps.len() + 2
            &&& resps.len() < reqs.len()
            &&& service.respond_ensures(
                conns[resps.len() as int],
                reqs[resps.len() as int],
                Err(e),
                conns.last(),
            )
        },
    }
}

/// The successful part of a trace: the states link each request to its
/// response in order, starting from a state that `connect` produced.
proof fn lemma_trace_complete<S: HttpService>(
    service: S,
    conns: Seq<S::Connection>,
    reqs: Seq<Request>,
    resps: Seq<Response>,
)
    requires
        conns.len() == resps.len() + 1,
        resps.len() == reqs.len(),
        service.connect_ensures(Ok::<S::Connection, S::Error>(conns[0])),
        forall|i: int|
            0 <= i < resps.len() ==> service.respond_ensures(
                conns[i],
                reqs[i],
                Ok(resps[i]),
                conns[i + 1],
            ),
    ensures
        exists|cs: Seq<S::Connection>|
            serve_trace(service, cs, reqs, resps, Option::<S::Error>::None),
{
    assert(serve_trace(service, conns, reqs, resps, Option::<S::Error>::None));
}

/// A trace cut short by a fatal `respond` error on the next request,
/// which left the connection in the `after` state.
proof fn lemma_trace_fatal<S: HttpService>(
    service: S,
    conns: Seq<S::Connection>,
    reqs: Seq<Request>,
    resps: Seq<Response>,
    e: S::Error,
    after: S::Connection,
)
    requires
        conns.len() == resps.len() + 1,
        resps.len() < reqs.len(),
        service.connect_ensures(Ok::<S::Connection, S::Error>(conns[0])),
        forall|i: int|
            0 <= i < resps.len() ==> service.respond_ensures(
                conns[i],
                reqs[i],
                Ok(resps[i]),
                conns[i + 1],
            ),
        service.respond_ensures(
            conns.last(),
            reqs[resps.len() as int],
            Err::<Response, S::Error>(e),
            after,
        ),
    ensures
        exists|cs: Seq<S::Connection>| serve_trace(service, cs, reqs, resps, Some(e)),
{
    let cs = conns.push(after);
    assert(cs[resps.len() as int] == conns.last());
    assert(cs.last() == after);
    assert forall|i: int| 0 <= i < resps.len() implies service.respond_ensures(
        cs[i],
        reqs[i],
        Ok(resps[i]),
        cs[i + 1],
    ) by {
        assert(cs[i] == conns[i]);
        assert(cs[i + 1] == conns[i + 1]);
    }
    assert(serve_trace(service, cs, reqs, resps, Some(e)));
}

/// Serve one connection as a correct transport must: call `connect` once;
/// on its error close at once, issuing no `respond` call; otherwise answer
/// the requests in order, each `respond` holding exclusive access to the
/// connection state, and stop at the first fatal error.
#[verifier::loop_isolation(false)]
pub fn serve_connection<S: HttpService>(service: &S, requests: Vec<Request>) -> (outcome:
    ConnectionOutcome<S::Error>)
    requires
        forall|c: S::Connection, i: int|
            0 <= i < requests@.len() ==> #[trigger] service.respond_requires(c, requests@[i]),
    ensures
        outcome matches ConnectionOutcome::Refused(e) ==> service.connect_ensures(
            Err::<S::Connection, S::Error>(e),
        ),
        outcome matches ConnectionOutcome::Served(resps, fatal) ==> exists|
            conns: Seq<S::Connection>,
        | serve_trace(*service, conns, requests@, resps@, fatal),
{
    let connected = service.connect();
    match connected {
        Err(e) => ConnectionOutcome::Refused(e),
        Ok(conn) => {
            let mut conn = conn;
            let ghost mut conns: Seq<S::Connection> = seq![conn];
            let mut pending = reversed(requests);
            let mut resps: Vec<Response> = Vec::new();
            proof {
                assert(requests@.skip(0) =~= requests@);
            }
            loop
                invariant
                    resps@.len() <= requests@.len(),
                    pending@ == requests@.skip(resps@.len() as int).reverse(),
                    conns.len() == resps@.len() + 1,
                    service.connect_ensures(Ok::<S::Connection, S::Error>(conns[0])),
                    forall|i: int|
                        0 <= i < resps@.len() ==> service.respond_ensures(
                            conns[i],
                            requests@[i],
                            Ok(resps@[i]),
                            conns[i + 1],
                        ),
                    conns.last() == conn,
                decreases pending@.len(),
            {
                let ghost done = resps@.len() as int;
                let next = pending.pop();
                match next {
                    None => {
                        proof {
                            assert(requests@.skip(done).reverse().len() == 0);
                            assert(done == requests@.len());
                            lemma_trace_complete(*service, conns, requests@, resps@);
                        }
                        return ConnectionOutcome::Served(resps, None);
                    },
                    Some(req) => {
                        proof {
                            assert(requests@.skip(done).reverse().last() == requests@.skip(done)[0]);
                            assert(req == requests@[done]);
                            assert(pending@ =~= requests@.skip(done + 1).reverse());
                        }
                        let r = service.respond(&mut conn, req);
                        match r {
                            Ok(resp) => {
                                resps.push(resp);
                                proof {
                                    conns = conns.push(conn);
                                }
                            },
                            Err(e) => {
                                proof {
                                    assert(service.respond_ensures(
                                        conns.last(),
                                        requests@[done],
                                        Err::<Response, S::Error>(e),
                                        conn,
                                    ));
                                    lemma_trace_fatal(*service, conns, requests@, resps@, e, conn);
                                }
                                return ConnectionOutcome::Served(resps, Some(e));
                            },
                        }
                    },
                }
            }
        },
    }
}

/// For the function-based service: `connect` always succeeds, whatever the
/// wrapped function does.
pub proof fn lemma_fn_service_connect_always_ok<F, E>(
    service: F,
    r: Result<(), E>,
) where F: Fn(Request) -> Result<Response, E>
    requires
        service.connect_ensures(r),
    ensures
        r is Ok,
{
}

/// For the function-based service: a `respond` outcome is exactly an
/// outcome of invoking the wrapped function on the request, and the
/// connection state (the unit value) is untouched.
pub proof fn lemma_fn_service_respond_is_call<F, E>(
    service: F,
    conn: (),
    req: Request,
    r: Result<Response, E>,
    conn_after: (),
) where F: Fn(Request) -> Result<Response, E>
    requires
        service.respond_ensures(conn, req, r, conn_after),
    ensures
        call_ensures(service, (req,), r),
        conn_after == conn,
{
}

} // verus!
