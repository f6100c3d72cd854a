use vstd::prelude::*;
use crate::error::Error;

verus! {

/// Serving on the compio runtime: the work that answers requests and
/// whether connections may be upgraded.
pub struct Compio<T> {
    work: T,
    upgrade: bool,
}

impl<T> Compio<T> {
    pub closed spec fn work(&self) -> T {
        self.work
    }

    pub closed spec fn upgrade(&self) -> bool {
        self.upgrade
    }

    pub fn new(work: T) -> (r: Self)
        ensures
            r.work() == work,
            !r.upgrade(),
    {
        Compio { work, upgrade: false }
    }

    pub fn upgradable(self, upgrade: bool) -> (r: Self)
        ensures
            r.work() == self.work(),
            r.upgrade() == upgrade,
    {
        Compio { work: self.work, upgrade }
    }

    /// Whether connections may be upgraded.
    pub fn is_upgradable(&self) -> (r: bool)
        ensures
            r == self.upgrade(),
    {
        self.upgrade
    }

    /// The work and the upgrade flag.
    pub fn into_parts(self) -> (r: (T, bool))
        ensures
            r == (self.work(), self.upgrade()),
    {
        (self.work, self.upgrade)
    }
}

/// Serving on the tokio runtime: the work that answers requests and
/// whether connections may be upgraded.
pub struct Tokio<T> {
    work: T,
    upgrade: bool,
}

impl<T> Tokio<T> {
    pub closed spec fn work(&self) -> T {
        self.work
    }

    pub closed spec fn upgrade(&self) -> bool {
        self.upgrade
    }

    pub fn new(work: T) -> (r: Self)
        ensures
            r.work() == work,
            !r.upgrade(),
    {
        Tokio { work, upgrade: false }
    }

    pub fn upgradable(self, upgrade: bool) -> (r: Self)
        ensures
            r.work() == self.work(),
            r.upgrade() == upgrade,
    {
        Tokio { work: self.work, upgrade }
    }

    /// The work and the upgrade flag.
    pub fn into_parts(self) -> (r: (T, bool))
        ensures
            r == (self.work(), self.upgrade()),
    {
        (self.work, self.upgrade)
    }
}

/// The work and context that answer the connections of a compio server.
pub struct CompioServable<T, C>(pub T, pub C);

/// The work and context that answer the connections of a tokio server.
pub struct TokioServer<T, C>(pub T, pub C);

/// A service of the second server, answering each request through the
/// inner service.
pub struct ServerService<S> {
    pub service: S,
}

/// An executor that spawns tasks on the current thread's tokio set.
pub struct LocalTokioExecutor;

/// An executor that spawns tasks on smol.
pub struct SmolExecutor;

/// A server: the connections' servable, the executor, and whether
/// connections may be upgraded.
pub struct Server<T, E> {
    service: T,
    executor: E,
    with_upgrade: bool,
}

impl<T, E> Server<T, E> {
    pub closed spec fn service(&self) -> T {
        self.service
    }

    pub closed spec fn executor(&self) -> E {
        self.executor
    }

    pub closed spec fn upgrades(&self) -> bool {
        self.with_upgrade
    }

    pub fn new(executor: E, service: T) -> (r: Self)
        ensures
            r.service() == service,
            r.executor() == executor,
            !r.upgrades(),
    {
        Server { service, executor, with_upgrade: false }
    }

    pub fn with_upgrade(self, with_upgrade: bool) -> (r: Self)
        ensures
            r.service() == self.service(),
            r.executor() == self.executor(),
            r.upgrades() == with_upgrade,
    {
        Server { service: self.service, executor: self.executor, with_upgrade }
    }

    /// Whether each accepted connection is served with upgrades.
    pub fn serves_with_upgrades(&self) -> (r: bool)
        ensures
            r == self.upgrades(),
    {
        self.with_upgrade
    }
}

/// What the accept loop of a server does next.
#[derive(PartialEq, Eq, Structural)]
pub enum ServeAction {
    /// Hand the accepted connection to the servable.
    Serve,
    /// Tell the open connections to shut down, and stop accepting.
    Shutdown,
    /// Wait for either.
    Wait,
}

/// The accept loop polls the listener before the shutdown signal, so a
/// connection that is ready is served even when shutdown was signalled.
pub fn serve_step(accepted: bool, shutdown: bool) -> (r: ServeAction)
    ensures
        r == (if accepted {
            ServeAction::Serve
        } else if shutdown {
            ServeAction::Shutdown
        } else {
            ServeAction::Wait
        }),
{
    if accepted {
        ServeAction::Serve
    } else if shutdown {
        ServeAction::Shutdown
    } else {
        ServeAction::Wait
    }
}

/// The kind of a failed `accept`.
#[derive(PartialEq, Eq, Structural)]
pub enum AcceptErrorKind {
    ConnectionRefused,
    ConnectionAborted,
    ConnectionReset,
    Other,
}

/// Whether a failed `accept` concerns only the connection being accepted.
pub fn is_connection_error(kind: &AcceptErrorKind) -> (r: bool)
    ensures
        r == (*kind == AcceptErrorKind::ConnectionRefused || *kind
            == AcceptErrorKind::ConnectionAborted || *kind == AcceptErrorKind::ConnectionReset),
{
    match kind {
        AcceptErrorKind::ConnectionRefused => true,
        AcceptErrorKind::ConnectionAborted => true,
        AcceptErrorKind::ConnectionReset => true,
        AcceptErrorKind::Other => false,
    }
}

/// How long to wait, in seconds, before accepting again after a failed
/// `accept`: at once after a connection error; otherwise the failure is
/// logged and the listener pauses one second (such as when the process
/// ran out of file descriptors).
pub fn accept_retry_delay(kind: &AcceptErrorKind) -> (r: u64)
    ensures
        r == (if *kind == AcceptErrorKind::Other { 1u64 } else { 0u64 }),
{
    if is_connection_error(kind) {
        0
    } else {
        1
    }
}

/// The line logged when the work fails on a request.
pub fn work_error_line(err: &Error) -> (r: String)
    ensures
        r@ == "Error "@ + err.message_spec(),
{
    String::from_str("Error ").concat(err.message().as_str())
}

/// The line logged when serving a connection fails.
pub fn connection_error_line(message: &str) -> (r: String)
    ensures
        r@ == "server error: "@ + message@,
{
    String::from_str("server error: ").concat(message)
}

} // verus!
