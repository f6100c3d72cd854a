use vstd::prelude::*;

verus! {

/// A function used as request work: its arguments are extracted from the
/// request, and what it returns is turned into a response.
pub struct FuncHandler<T> {
    func: T,
}

/// Makes request work of a function.
pub fn handler<T>(func: T) -> (r: FuncHandler<T>)
    ensures
        r.func() == func,
{
    FuncHandler { func }
}

impl<T> FuncHandler<T> {
    pub closed spec fn func(&self) -> T {
        self.func
    }

    /// The function.
    pub fn get(&self) -> (r: &T)
        ensures
            *r == self.func(),
    {
        &self.func
    }
}

/// Work whose output and error are turned into a response and the service
/// error.
pub struct RouteHandler<T> {
    work: T,
}

impl<T> RouteHandler<T> {
    pub closed spec fn work(&self) -> T {
        self.work
    }

    pub fn new(work: T) -> (r: Self)
        ensures
            r.work() == work,
    {
        RouteHandler { work }
    }

    /// The wrapped work.
    pub fn inner(&self) -> (r: &T)
        ensures
            *r == self.work(),
    {
        &self.work
    }
}

/// Where a function handler stands with a request.
#[derive(PartialEq, Eq, Structural)]
pub enum HandlerState {
    /// Extracting the function's arguments from the request.
    Extracting,
    /// Running the function.
    Running,
}

/// What a function handler does next.
#[derive(PartialEq, Eq, Structural)]
pub enum HandlerAction {
    /// Call the function with the extracted arguments.
    Call,
    /// Fail with the extraction's error; the function is not called.
    Fail,
    /// Turn the function's output into the response.
    Respond,
}

/// The step taken when the current phase finishes: after extraction, call
/// the function if it succeeded, else fail; after the function, respond.
pub fn handler_step(state: HandlerState, ok: bool) -> (r: (HandlerState, HandlerAction))
    ensures
        state == HandlerState::Extracting && ok ==> r == (HandlerState::Running, HandlerAction::Call),
        state == HandlerState::Extracting && !ok ==> r == (
            HandlerState::Extracting,
            HandlerAction::Fail,
        ),
        state == HandlerState::Running ==> r == (HandlerState::Running, HandlerAction::Respond),
{
    match state {
        HandlerState::Extracting => {
            if ok {
                (HandlerState::Running, HandlerAction::Call)
            } else {
                (HandlerState::Extracting, HandlerAction::Fail)
            }
        },
        HandlerState::Running => (HandlerState::Running, HandlerAction::Respond),
    }
}

} // verus!
