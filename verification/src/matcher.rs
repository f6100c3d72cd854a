use vstd::prelude::*;
use crate::bytes_text::utf8;
use crate::error::Error;
use crate::response::Response;

verus! {

/// A service together with the filter that decides whether it handles a
/// request.
pub struct FilterService<T, M> {
    inner: T,
    filter: M,
}

impl<T, M> FilterService<T, M> {
    pub closed spec fn inner(&self) -> T {
        self.inner
    }

    pub closed spec fn filter(&self) -> M {
        self.filter
    }

    pub fn new(inner: T, filter: M) -> (r: Self)
        ensures
            r.inner() == inner,
            r.filter() == filter,
    {
        FilterService { inner, filter }
    }
}

/// The first of two filtered services that handles a request.
pub struct Or<T1, T2>(pub T1, pub T2);

/// Where an `Or` stands with a request.
#[derive(PartialEq, Eq, Structural)]
pub enum OrState {
    /// Waiting for the left service to say whether it handles the request.
    CheckLeft,
    /// Waiting for the right service to say whether it handles the request.
    CheckRight,
    /// The left service is answering.
    Left,
    /// The right service is answering.
    Right,
    /// Neither handles the request.
    NotFound,
}

/// What an `Or` does next.
#[derive(PartialEq, Eq, Structural)]
pub enum OrAction {
    /// Hand the request to the left service.
    CallLeft,
    /// Ask the right service whether it handles the request.
    AskRight,
    /// Hand the request to the right service.
    CallRight,
    /// Fail with "not found".
    FailNotFound,
}

pub open spec fn or_step_spec(state: OrState, can_handle: bool) -> (OrState, OrAction) {
    if state == OrState::CheckLeft {
        if can_handle {
            (OrState::Left, OrAction::CallLeft)
        } else {
            (OrState::CheckRight, OrAction::AskRight)
        }
    } else if can_handle {
        (OrState::Right, OrAction::CallRight)
    } else {
        (OrState::NotFound, OrAction::FailNotFound)
    }
}

/// The `Or` begins by asking the left service.
pub fn or_start() -> (r: OrState)
    ensures
        r == OrState::CheckLeft,
{
    OrState::CheckLeft
}

/// The step taken when the service being asked answers whether it
/// handles the request.
pub fn or_step(state: OrState, can_handle: bool) -> (r: (OrState, OrAction))
    requires
        state == OrState::CheckLeft || state == OrState::CheckRight,
    ensures
        r == or_step_spec(state, can_handle),
{
    match state {
        OrState::CheckLeft => {
            if can_handle {
                (OrState::Left, OrAction::CallLeft)
            } else {
                (OrState::CheckRight, OrAction::AskRight)
            }
        },
        _ => {
            if can_handle {
                (OrState::Right, OrAction::CallRight)
            } else {
                (OrState::NotFound, OrAction::FailNotFound)
            }
        },
    }
}

/// The error with which an `Or` fails when neither service handles the
/// request.
pub fn or_not_found() -> (e: Error)
    ensures
        e.kind() is NotFound,
{
    Error::not_found()
}

/// What an `Or` resolves to once it has settled: the answer of the
/// service it handed the request to, unchanged, or the "not found" error
/// when neither handles the request.
pub fn or_finish(state: OrState, answer: Option<Result<Response, Error>>) -> (r: Result<
    Response,
    Error,
>)
    requires
        state == OrState::Left || state == OrState::Right || state == OrState::NotFound,
        state != OrState::NotFound ==> answer is Some,
    ensures
        state != OrState::NotFound ==> answer == Some(r),
        state == OrState::NotFound ==> (r matches Err(e) && e.kind() is NotFound),
{
    match state {
        OrState::NotFound => Err(or_not_found()),
        _ => match answer {
            Some(a) => a,
            None => Err(or_not_found()),
        },
    }
}

/// The state in which an `Or` settles when the left service does or does
/// not handle the request, and then the right one.
pub open spec fn or_settled(left: bool, right: bool) -> OrState {
    let first = or_step_spec(OrState::CheckLeft, left).0;
    if first == OrState::CheckRight {
        or_step_spec(first, right).0
    } else {
        first
    }
}

/// Law: an `Or` settles on the left service when that one handles the
/// request, else on the right one when it does, else on "not found"; by
/// `or_finish` it then resolves to that service's answer unchanged, or to
/// the error answered by `404`.
pub proof fn law_or_resolves(left: bool, right: bool)
    ensures
        or_settled(left, right) == (if left {
            OrState::Left
        } else if right {
            OrState::Right
        } else {
            OrState::NotFound
        }),
{
}

/// Law: an `Or` hands the request to the left service when it handles it,
/// without asking the right one; otherwise to the right service when that
/// one handles it; and when neither does, it fails with an error answered
/// by `404` and the body `Not Found`.
pub proof fn law_or_dispatch(left: bool, right: bool, e: Error)
    requires
        e.kind() is NotFound,
    ensures
        left ==> or_step_spec(OrState::CheckLeft, left) == (OrState::Left, OrAction::CallLeft),
        !left ==> or_step_spec(OrState::CheckLeft, left) == (OrState::CheckRight, OrAction::AskRight),
        !left && right ==> or_step_spec(or_step_spec(OrState::CheckLeft, left).0, right) == (
            OrState::Right,
            OrAction::CallRight,
        ),
        !left && !right ==> or_step_spec(or_step_spec(OrState::CheckLeft, left).0, right) == (
            OrState::NotFound,
            OrAction::FailNotFound,
        ),
        e.status_spec() == 404,
        e.body_spec() == utf8("Not Found"@),
{
}

} // verus!
