use vstd::prelude::*;
use crate::bytes_text::{visible_text, visible_text_spec};
use crate::error::{Error, ErrorKind};
use crate::rel_path::{file_name_spec, relative_file_name};

verus! {

/// What `reqwest::Url::parse` makes of `url`: the parsed URL in its
/// serialized form (`Url::as_str`), or the text of the parse error.
pub uninterp spec fn url_parse(url: Seq<char>) -> Result<Seq<char>, Seq<char>>;

/// Calls `reqwest::Url::parse` on `url` and gives the parsed URL's
/// serialization (`as_str`), or the parse error's text. Both are named, not
/// stated: they are a function of `url` alone.
#[verifier::external_body]
fn parse_url(url: &str) -> (r: Result<String, String>)
    ensures
        match r {
            Ok(u) => url_parse(url@) == Ok::<Seq<char>, Seq<char>>(u@),
            Err(m) => url_parse(url@) == Err::<Seq<char>, Seq<char>>(m@),
        },
{
    match reqwest::Url::parse(url) {
        Ok(parsed) => Ok(parsed.as_str().to_string()),
        Err(err) => Err(err.to_string()),
    }
}

/// A request for a URL; its method is always `GET`.
pub struct GetRequest {
    /// The parsed URL, serialized.
    pub url: String,
}

/// A `GET` request for `url` (as the URL parser serializes it), or the
/// error that carries why `url` is no absolute URL.
pub fn get(url: &str) -> (r: Result<GetRequest, Error>)
    ensures
        match r {
            Ok(q) => url_parse(url@) == Ok::<Seq<char>, Seq<char>>(q.url@),
            Err(e) => e.kind() matches ErrorKind::Internal(m) && url_parse(url@) == Err::<
                Seq<char>,
                Seq<char>,
            >(m@),
        },
{
    match parse_url(url) {
        Ok(parsed) => Ok(GetRequest { url: parsed }),
        Err(message) => Err(Error::custom(message)),
    }
}

/// The name under which the body of a response fetched from a URL with
/// this path is kept: the path's file name, or `unknown`.
pub fn response_file_name(url_path: &str) -> (r: String)
    ensures
        r@ == match file_name_spec(url_path@) {
            Some(n) => n,
            None => "unknown"@,
        },
{
    match relative_file_name(url_path) {
        Some(name) => name,
        None => String::from_str("unknown"),
    }
}

/// The text of the media type that `mime` parses out of `s`
/// (`s.parse::<mime::Mime>()` shown with `to_string`).
pub uninterp spec fn mime_text_of(s: Seq<char>) -> Option<Seq<char>>;

/// Calls `str::parse::<mime::Mime>` on `s` and shows the parsed type with
/// `to_string`. What it gives is named, not stated: it is a function of `s`
/// alone.
#[verifier::external_body]
fn parse_mime(s: &str) -> (r: Option<String>)
    ensures
        match r {
            Some(m) => mime_text_of(s@) == Some(m@),
            None => mime_text_of(s@) is None,
        },
{
    s.parse::<mime::Mime>().ok().map(|m| m.to_string())
}

/// The media type under which a fetched body is kept: that of its
/// `content-type` field when the field reads as text and parses, else
/// `application/octet-stream`.
pub open spec fn body_media_type(content_type: Option<Seq<u8>>) -> Seq<char> {
    match content_type {
        Some(b) => match visible_text_spec(b) {
            Some(t) => match mime_text_of(t) {
                Some(m) => m,
                None => "application/octet-stream"@,
            },
            None => "application/octet-stream"@,
        },
        None => "application/octet-stream"@,
    }
}

/// The media type under which a fetched body is kept.
pub fn response_media_type(content_type: &Option<Vec<u8>>) -> (r: String)
    ensures
        r@ == body_media_type(
            match *content_type {
                Some(v) => Some(v@),
                None => None,
            },
        ),
{
    let parsed = match content_type {
        Some(v) => match visible_text(v.as_slice()) {
            Some(t) => parse_mime(t),
            None => None,
        },
        None => None,
    };
    media_type_or_default(parsed)
}

/// A parsed media type, or `application/octet-stream` when there is none.
pub fn media_type_or_default(parsed: Option<String>) -> (r: String)
    ensures
        r@ == match parsed {
            Some(m) => m@,
            None => "application/octet-stream"@,
        },
{
    match parsed {
        Some(m) => m,
        None => String::from_str("application/octet-stream"),
    }
}

/// What a frame of a fetched body gives to the stream of its bytes.
pub enum FrameKind {
    /// A data frame with these bytes.
    Data(Vec<u8>),
    /// A frame that is not data, such as trailers.
    Other,
    /// The body failed, with this message.
    Failed(String),
    /// The body ended.
    End,
}

/// What the byte stream of a fetched body yields for a frame.
pub enum StreamItem {
    /// Yield these bytes.
    Bytes(Vec<u8>),
    /// Yield the failure with this message.
    Failure(String),
    /// Poll the body again: the frame carried no data.
    Skip,
    /// The stream ended.
    Done,
}

/// The stream yields data frames, skips other frames, passes failures on
/// and ends with the body.
pub fn stream_item(frame: FrameKind) -> (r: StreamItem)
    ensures
        match frame {
            FrameKind::Data(d) => r matches StreamItem::Bytes(b) && b@ == d@,
            FrameKind::Other => r is Skip,
            FrameKind::Failed(m) => r matches StreamItem::Failure(n) && n@ == m@,
            FrameKind::End => r is Done,
        },
{
    match frame {
        FrameKind::Data(d) => StreamItem::Bytes(d),
        FrameKind::Other => StreamItem::Skip,
        FrameKind::Failed(m) => StreamItem::Failure(m),
        FrameKind::End => StreamItem::Done,
    }
}

} // verus!
