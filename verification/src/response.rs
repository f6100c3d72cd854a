use vstd::prelude::*;
use crate::bytes_text::{decimal, decimal_spec, law_decimal_reads_back, parse_u64_spec, str_bytes, utf8};
use crate::error::{Error, ErrorKind};

verus! {

/// A response as plain values: status code, header fields in order
/// (lower-case name, value bytes) and body bytes.
pub struct Response {
    pub status: u16,
    pub headers: Vec<(Vec<u8>, Vec<u8>)>,
    pub body: Vec<u8>,
}

/// Header fields of a response as sequences of bytes.
pub open spec fn headers_view(h: Seq<(Vec<u8>, Vec<u8>)>) -> Seq<(Seq<u8>, Seq<u8>)> {
    h.map_values(|p: (Vec<u8>, Vec<u8>)| (p.0@, p.1@))
}

pub open spec fn content_type_name() -> Seq<u8> {
    utf8("content-type"@)
}

pub open spec fn content_length_name() -> Seq<u8> {
    utf8("content-length"@)
}

/// A response with a body and a single `content-type` header.
pub open spec fn typed_response_spec(r: Response, body: Seq<u8>, content_type: Seq<char>) -> bool {
    &&& r.status == 200
    &&& r.body@ == body
    &&& headers_view(r.headers@) == seq![(content_type_name(), utf8(content_type))]
}

/// The response for a text body: status 200, `content-type: text/plain`.
pub fn text_response(body: &str) -> (r: Response)
    ensures
        typed_response_spec(r, utf8(body@), "text/plain"@),
{
    let mut headers: Vec<(Vec<u8>, Vec<u8>)> = Vec::new();
    headers.push((str_bytes("content-type"), str_bytes("text/plain")));
    let r = Response { status: 200, headers, body: str_bytes(body) };
    assert(headers_view(r.headers@) =~= seq![(content_type_name(), utf8("text/plain"@))]);
    r
}

/// HTML content: turned into a response with `content-type: text/html`.
pub struct Html<T>(pub T);

impl Html<Vec<u8>> {
    /// The response for an HTML body: status 200, `content-type: text/html`.
    pub fn into_response(self) -> (r: Response)
        ensures
            typed_response_spec(r, self.0@, "text/html"@),
    {
        let mut headers: Vec<(Vec<u8>, Vec<u8>)> = Vec::new();
        headers.push((str_bytes("content-type"), str_bytes("text/html")));
        let r = Response { status: 200, headers, body: self.0 };
        assert(headers_view(r.headers@) =~= seq![(content_type_name(), utf8("text/html"@))]);
        r
    }
}


/// A value sent or received as JSON.
pub struct Json<T>(pub T);

pub open spec fn json_response_spec(encoded: Result<Seq<u8>, Seq<char>>, r: Response) -> bool {
    match encoded {
        Ok(bytes) => {
            &&& r.status == 200
            &&& r.body@ == bytes
            &&& headers_view(r.headers@) == seq![
                (content_type_name(), utf8("application/json"@)),
                (content_length_name(), decimal_spec(bytes.len())),
            ]
        },
        Err(message) => {
            &&& r.status == 500
            &&& r.headers@.len() == 0
            &&& r.body@ == utf8(message)
        },
    }
}

/// The response for a value that was encoded as JSON: the bytes with
/// `content-type: application/json` and their length; or, when encoding
/// failed, `500` with the encoder's message as the body.
pub fn json_response(encoded: Result<Vec<u8>, String>) -> (r: Response)
    ensures
        json_response_spec(
            match encoded {
                Ok(b) => Ok(b@),
                Err(m) => Err(m@),
            },
            r,
        ),
{
    match encoded {
        Ok(bytes) => {
            let mut headers: Vec<(Vec<u8>, Vec<u8>)> = Vec::new();
            headers.push((str_bytes("content-type"), str_bytes("application/json")));
            headers.push((str_bytes("content-length"), decimal(bytes.len() as u64)));
            let r = Response { status: 200, headers, body: bytes };
            assert(headers_view(r.headers@) =~= seq![
                (content_type_name(), utf8("application/json"@)),
                (content_length_name(), decimal_spec(r.body@.len())),
            ]);
            r
        },
        Err(message) => Response { status: 500, headers: Vec::new(), body: str_bytes(message.as_str()) },
    }
}

/// Law: a JSON response to encoded bytes answers `200` with those bytes
/// as its body, a `content-type` of `application/json`, and a
/// `content-length` field that reads back, as an unsigned decimal number,
/// as the body's length in bytes.
pub proof fn law_json_length_reads_back(bytes: Seq<u8>, r: Response)
    requires
        json_response_spec(Ok(bytes), r),
        bytes.len() <= u64::MAX,
    ensures
        r.status == 200,
        r.body@ == bytes,
        r.headers@.len() == 2,
        r.headers@[0].0@ == utf8("content-type"@) && r.headers@[0].1@ == utf8("application/json"@),
        r.headers@[1].0@ == utf8("content-length"@),
        parse_u64_spec(r.headers@[1].1@) == Some(bytes.len() as u64),
{
    law_decimal_reads_back(bytes.len() as u64);
    let hv = headers_view(r.headers@);
    assert(hv.len() == 2);
    assert(hv.len() == r.headers@.len());
    assert(headers_view(r.headers@)[0] == (r.headers@[0].0@, r.headers@[0].1@));
    assert(headers_view(r.headers@)[1] == (r.headers@[1].0@, r.headers@[1].1@));
}

/// The outcome of reading a JSON body: the decoded value, or the error
/// that carries the message of the failure (reading the body or decoding).
pub fn json_decoded<T>(decoded: Result<T, String>) -> (r: Result<Json<T>, Error>)
    ensures
        match decoded {
            Ok(v) => r matches Ok(j) && j.0 == v,
            Err(m) => r matches Err(e) && e.kind() == ErrorKind::Internal(m),
        },
{
    match decoded {
        Ok(v) => Ok(Json(v)),
        Err(m) => Err(Error::custom(m)),
    }
}

/// The response for the outcome of request work: the response it gave, or
/// the one that answers its error.
pub fn result_response(outcome: Result<Response, Error>) -> (r: Response)
    ensures
        match outcome {
            Ok(resp) => r == resp,
            Err(e) => r.status == e.status_spec() && r.headers@.len() == 0 && r.body@
                == e.body_spec(),
        },
{
    match outcome {
        Ok(resp) => resp,
        Err(e) => e.into_response(),
    }
}

} // verus!
