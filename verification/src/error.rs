use vstd::prelude::*;
use crate::bytes_text::{str_bytes, utf8};
use crate::response::Response;

verus! {

/// What went wrong while serving a request.
pub enum ErrorKind {
    /// No route or handler answered the request.
    NotFound,
    /// A body exceeded its size limit.
    MaxSizeReached,
    /// A failure of the application, with its message.
    Internal(String),
    /// A failure while building an HTTP message, with its message.
    Http(String),
}

/// The error of the service layer.
pub struct Error {
    kind: ErrorKind,
}

impl Error {
    pub closed spec fn kind(&self) -> ErrorKind {
        self.kind
    }

    pub fn not_found() -> (e: Error)
        ensures
            e.kind() is NotFound,
    {
        Error { kind: ErrorKind::NotFound }
    }

    pub fn max_size_reached() -> (e: Error)
        ensures
            e.kind() is MaxSizeReached,
    {
        Error { kind: ErrorKind::MaxSizeReached }
    }

    /// An application error; `message` is what the error displays as.
    pub fn custom(message: String) -> (e: Error)
        ensures
            e.kind() == ErrorKind::Internal(message),
    {
        Error { kind: ErrorKind::Internal(message) }
    }

    /// An error raised while building an HTTP message.
    pub fn http(message: String) -> (e: Error)
        ensures
            e.kind() == ErrorKind::Http(message),
    {
        Error { kind: ErrorKind::Http(message) }
    }

    /// Whether the error wraps an underlying error (its source).
    pub fn has_source(&self) -> (r: bool)
        ensures
            r == (self.kind() is Internal || self.kind() is Http),
    {
        match &self.kind {
            ErrorKind::NotFound => false,
            ErrorKind::MaxSizeReached => false,
            ErrorKind::Internal(_) => true,
            ErrorKind::Http(_) => true,
        }
    }

    pub open spec fn message_spec(&self) -> Seq<char> {
        match self.kind() {
            ErrorKind::NotFound => "Not Found"@,
            ErrorKind::MaxSizeReached => "Maximum Size Reached"@,
            ErrorKind::Http(m) => "HTTP Error: "@ + m@,
            ErrorKind::Internal(m) => m@,
        }
    }

    /// The text the error displays as.
    pub fn message(&self) -> (r: String)
        ensures
            r@ == self.message_spec(),
    {
        match &self.kind {
            ErrorKind::NotFound => String::from_str("Not Found"),
            ErrorKind::MaxSizeReached => String::from_str("Maximum Size Reached"),
            ErrorKind::Http(m) => String::from_str("HTTP Error: ").concat(m.as_str()),
            ErrorKind::Internal(m) => m.clone(),
        }
    }

    pub open spec fn status_spec(&self) -> u16 {
        match self.kind() {
            ErrorKind::NotFound => 404,
            ErrorKind::MaxSizeReached => 413,
            ErrorKind::Http(_) => 500,
            ErrorKind::Internal(_) => 500,
        }
    }

    pub open spec fn body_spec(&self) -> Seq<u8> {
        match self.kind() {
            ErrorKind::NotFound => utf8("Not Found"@),
            ErrorKind::MaxSizeReached => utf8("Maximum Size Reached"@),
            ErrorKind::Http(m) => utf8("HTTP Error: "@ + m@),
            ErrorKind::Internal(_) => utf8("Internal Server Error"@),
        }
    }

    /// The response that answers a request that failed with this error: no
    /// header fields, a status and a short text body. The message of an
    /// application error is not shown to the client.
    pub fn into_response(self) -> (r: Response)
        ensures
            r.status == self.status_spec(),
            r.headers@.len() == 0,
            r.body@ == self.body_spec(),
    {
        let status = match &self.kind {
            ErrorKind::NotFound => 404u16,
            ErrorKind::MaxSizeReached => 413u16,
            ErrorKind::Http(_) => 500u16,
            ErrorKind::Internal(_) => 500u16,
        };
        let body = match &self.kind {
            ErrorKind::NotFound => str_bytes("Not Found"),
            ErrorKind::MaxSizeReached => str_bytes("Maximum Size Reached"),
            ErrorKind::Http(m) => {
                let text = String::from_str("HTTP Error: ").concat(m.as_str());
                str_bytes(text.as_str())
            },
            ErrorKind::Internal(_) => str_bytes("Internal Server Error"),
        };
        Response { status, headers: Vec::new(), body }
    }
}

} // verus!
