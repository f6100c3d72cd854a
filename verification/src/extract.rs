use vstd::prelude::*;
use crate::bytes_text::utf8;
use crate::error::{Error, ErrorKind};

verus! {

/// A value taken from the request's extensions.
pub struct Ext<T>(pub T);

/// A value taken from the shared context.
pub struct State<T>(pub T);

/// Marks extraction from the whole request.
pub struct ViaReq;

/// Marks extraction from the request's head.
pub struct ViaParts;

/// What `format!("{:?}", s)` shows of a string: its `Debug` form.
pub uninterp spec fn debug_text_of(s: Seq<char>) -> Seq<char>;

/// A type name that its debug form shows between quotes unchanged:
/// printable ASCII without `"` or `\`.
pub open spec fn plain_ty_name(name: Seq<char>) -> bool {
    forall|i: int| 0 <= i < name.len() ==> (' ' <= #[trigger] name[i] <= '~' && name[i] != '"'
        && name[i] != '\\')
}

/// Calls `format!("{:?}", s)`. The `Debug` form of a string is named; of a
/// string of printable ASCII without `"` or `\`, it is the string between
/// double quotes, as the documentation of `str`'s `Debug` and
/// `char::escape_debug` gives (only quotes, backslashes and characters that
/// are not printable are escaped).
#[verifier::external_body]
fn debug_quoted(s: &str) -> (r: String)
    ensures
        r@ == debug_text_of(s@),
        plain_ty_name(s@) ==> r@ == "\""@ + s@ + "\""@,
{
    format!("{:?}", s)
}

/// The message with which extracting a value of a type that is not there
/// fails: the type's name in its debug form.
pub open spec fn missing_message(ty_name: Seq<char>) -> Seq<char> {
    "Type "@ + debug_text_of(ty_name) + " not found in state"@
}

fn missing_error(ty_name: &str) -> (e: Error)
    ensures
        e.kind() matches ErrorKind::Internal(m) && m@ == missing_message(ty_name@),
{
    let m = String::from_str("Type ").concat(debug_quoted(ty_name).as_str()).concat(
        " not found in state",
    );
    Error::custom(m)
}

impl<T> Ext<T> {
    /// The extension of the request's type, or the error that names the
    /// missing type.
    pub fn from_found(found: Option<T>, ty_name: &str) -> (r: Result<Ext<T>, Error>)
        ensures
            match found {
                Some(v) => r matches Ok(e) && e.0 == v,
                None => r matches Err(e) && e.kind() matches ErrorKind::Internal(m) && m@
                    == missing_message(ty_name@),
            },
    {
        match found {
            Some(v) => Ok(Ext(v)),
            None => Err(missing_error(ty_name)),
        }
    }
}

impl<T> State<T> {
    /// The context's value of the type, or the error that names the
    /// missing type.
    pub fn from_found(found: Option<T>, ty_name: &str) -> (r: Result<State<T>, Error>)
        ensures
            match found {
                Some(v) => r matches Ok(e) && e.0 == v,
                None => r matches Err(e) && e.kind() matches ErrorKind::Internal(m) && m@
                    == missing_message(ty_name@),
            },
    {
        match found {
            Some(v) => Ok(State(v)),
            None => Err(missing_error(ty_name)),
        }
    }
}

/// A value that the router or a middleware left in the request's
/// extensions, or the error with `message` when it is not there (`Missing
/// UrlParams` for the URL parameters, `CookieJar modifier not registered`
/// for the cookie jar).
pub fn from_extension<T>(found: Option<T>, message: &str) -> (r: Result<T, Error>)
    ensures
        match found {
            Some(v) => r == Ok::<T, Error>(v),
            None => r matches Err(e) && e.kind() matches ErrorKind::Internal(m) && m@ == message@,
        },
{
    match found {
        Some(v) => Ok(v),
        None => Err(Error::custom(String::from_str(message))),
    }
}

/// What the extraction of a tuple of values does next.
#[derive(PartialEq, Eq, Structural)]
pub enum ExtractAction {
    /// Run the extractor with this index.
    Run(usize),
    /// All extractors succeeded: hand over the tuple.
    Finish,
    /// An extractor failed: fail with its error, running no further one.
    Fail,
}

/// Extraction of `total` values starts with the first extractor, or
/// finishes at once when there is none.
pub fn extract_start(total: usize) -> (r: ExtractAction)
    ensures
        r == (if total == 0 { ExtractAction::Finish } else { ExtractAction::Run(0) }),
{
    if total == 0 {
        ExtractAction::Finish
    } else {
        ExtractAction::Run(0)
    }
}

pub open spec fn extract_step_spec(index: usize, total: usize, ok: bool) -> ExtractAction {
    if !ok {
        ExtractAction::Fail
    } else if index + 1 < total {
        ExtractAction::Run((index + 1) as usize)
    } else {
        ExtractAction::Finish
    }
}

/// The step taken when the extractor `index` (of `total`) has finished,
/// successfully or not.
pub fn extract_step(index: usize, total: usize, ok: bool) -> (r: ExtractAction)
    requires
        index < total,
    ensures
        r == extract_step_spec(index, total, ok),
{
    if !ok {
        ExtractAction::Fail
    } else if index + 1 < total {
        ExtractAction::Run(index + 1)
    } else {
        ExtractAction::Finish
    }
}

/// The actions taken, one per extractor that ran, when extractors succeed
/// or fail as `outcomes` says, starting at extractor `index`.
pub open spec fn extract_run(outcomes: Seq<bool>, index: nat) -> Seq<ExtractAction>
    decreases outcomes.len() - index,
{
    if index >= outcomes.len() || outcomes.len() > usize::MAX {
        Seq::empty()
    } else {
        let a = extract_step_spec(index as usize, outcomes.len() as usize, outcomes[index as int]);
        if a == ExtractAction::Run((index + 1) as usize) {
            seq![a] + extract_run(outcomes, index + 1)
        } else {
            seq![a]
        }
    }
}

/// Law: extractors run in order, each only after all earlier ones
/// succeeded; the extraction finishes with the tuple when all succeed and
/// fails at the first that fails, running none after it.
pub proof fn law_extract_in_order(outcomes: Seq<bool>, index: nat)
    requires
        0 < outcomes.len() <= usize::MAX,
        index < outcomes.len(),
    ensures
        (forall|j: int| index <= j < outcomes.len() ==> #[trigger] outcomes[j]) ==> extract_run(
            outcomes,
            index,
        ).last() == ExtractAction::Finish && extract_run(outcomes, index).len() == outcomes.len()
            - index,
        forall|k: int|
            index <= k < outcomes.len() && !outcomes[k] && (forall|j: int|
                index <= j < k ==> #[trigger] outcomes[j]) ==> extract_run(outcomes, index).len()
                == k - index + 1 && extract_run(outcomes, index).last() == ExtractAction::Fail,
    decreases outcomes.len() - index,
{
    if index + 1 < outcomes.len() {
        law_extract_in_order(outcomes, index + 1);
        if outcomes[index as int] {
            let rest = extract_run(outcomes, index + 1);
            assert(extract_run(outcomes, index) == seq![ExtractAction::Run((index + 1) as usize)]
                + rest);
            assert forall|k: int|
                index <= k < outcomes.len() && !outcomes[k] && (forall|j: int|
                    index <= j < k ==> #[trigger] outcomes[j]) implies extract_run(
                outcomes,
                index,
            ).len() == k - index + 1 && extract_run(outcomes, index).last()
                == ExtractAction::Fail by {
                assert(k != index);
                assert(forall|j: int| index + 1 <= j < k ==> #[trigger] outcomes[j]);
            }
        }
    }
}

} // verus!
