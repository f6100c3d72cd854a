use vstd::prelude::*;
use crate::bytes_text::{visible_text, visible_text_spec};
use crate::error::{Error, ErrorKind};

verus! {

/// The boundary that `multer::parse_boundary` reads out of a content type:
/// the `boundary` parameter of a `multipart/form-data` type.
pub uninterp spec fn multipart_boundary_of(content_type: Seq<char>) -> Option<Seq<char>>;

/// Calls `multer::parse_boundary`, which parses `content_type` as a media
/// type and gives its `boundary` parameter when the type is
/// `multipart/form-data`. What it gives is named, not stated: it is a
/// function of `content_type` alone.
#[verifier::external_body]
fn parse_boundary(content_type: &str) -> (r: Option<String>)
    ensures
        match r {
            Some(b) => multipart_boundary_of(content_type@) == Some(b@),
            None => multipart_boundary_of(content_type@) is None,
        },
{
    multer::parse_boundary(content_type).ok()
}

/// The boundary of a multipart request, from its `content-type` field: the
/// field must read as text and name a multipart form with a boundary.
pub open spec fn request_boundary(content_type: Option<Seq<u8>>) -> Option<Seq<char>> {
    match content_type {
        Some(b) => match visible_text_spec(b) {
            Some(t) => multipart_boundary_of(t),
            None => None,
        },
        None => None,
    }
}

/// The outcome of reading a multipart request's boundary: the boundary,
/// or the error `Bad request`.
pub fn boundary_outcome(found: Option<String>) -> (r: Result<String, Error>)
    ensures
        match found {
            Some(b) => r matches Ok(s) && s@ == b@,
            None => r matches Err(e) && e.kind() matches ErrorKind::Internal(m) && m@ == "Bad request"@,
        },
{
    match found {
        Some(b) => Ok(b),
        None => Err(Error::custom(String::from_str("Bad request"))),
    }
}

/// The boundary with which a multipart request's body is read, or the
/// error `Bad request` when the request names none.
pub fn multipart_boundary(content_type: &Option<Vec<u8>>) -> (r: Result<String, Error>)
    ensures
        match request_boundary(
            match *content_type {
                Some(v) => Some(v@),
                None => None,
            },
        ) {
            Some(b) => r matches Ok(s) && s@ == b,
            None => r matches Err(e) && e.kind() matches ErrorKind::Internal(m) && m@ == "Bad request"@,
        },
{
    let found = match content_type {
        Some(v) => match visible_text(v.as_slice()) {
            Some(t) => parse_boundary(t),
            None => None,
        },
        None => None,
    };
    boundary_outcome(found)
}

} // verus!
