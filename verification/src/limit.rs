use vstd::prelude::*;
use crate::bytes_text::{
    all_visible_ascii, decimal_spec, is_visible_text, law_decimal_reads_back,
    lemma_decimal_is_header_value, parse_u64, parse_u64_spec,
};
use crate::response::Response;

verus! {

/// The middleware that bounds request bodies to a number of bytes.
pub struct RequestBodyLimit(pub u64);

/// Work wrapped by [`RequestBodyLimit`]: the inner work and the limit.
pub struct RequestBodyLimitWork<T>(T, u64);

impl RequestBodyLimit {
    /// Wraps `work` under this limit.
    pub fn wrap<T>(&self, work: T) -> (r: RequestBodyLimitWork<T>)
        ensures
            r.work() == work,
            r.limit() == self.0,
    {
        RequestBodyLimitWork(work, self.0)
    }
}

impl<T> RequestBodyLimitWork<T> {
    pub closed spec fn work(&self) -> T {
        self.0
    }

    pub closed spec fn limit(&self) -> u64 {
        self.1
    }
}

/// The answer of limited work: the inner work's output, or the response
/// that refused the request.
pub enum RequestBodyLimitWorkResponse<T> {
    Error(Response),
    Work(T),
}

/// An optional byte vector as an optional sequence.
pub open spec fn opt_bytes(o: Option<Vec<u8>>) -> Option<Seq<u8>> {
    match o {
        Some(v) => Some(v@),
        None => None,
    }
}

/// The declared length of a body, when its `content-length` field reads as
/// text and as an unsigned decimal number.
pub open spec fn declared_length(content_length: Option<Seq<u8>>) -> Option<u64> {
    match content_length {
        Some(v) => if all_visible_ascii(v) {
            parse_u64_spec(v)
        } else {
            None
        },
        None => None,
    }
}

/// Whether a request is refused before its work runs: its declared length
/// exceeds the limit.
pub open spec fn refused(content_length: Option<Seq<u8>>, limit: u64) -> bool {
    match declared_length(content_length) {
        Some(n) => n > limit,
        None => false,
    }
}

impl<T> RequestBodyLimitWork<T> {
    /// Answers the request at once with `413 Payload Too Large` (empty
    /// body, no fields) when its `content-length` declares more than the
    /// limit; otherwise gives `None`, and the inner work runs on the body
    /// read under the limit.
    pub fn check(&self, content_length: &Option<Vec<u8>>) -> (r: Option<Response>)
        ensures
            r is Some == refused(opt_bytes(*content_length), self.limit()),
            r matches Some(resp) ==> resp.status == 413 && resp.headers@.len() == 0
                && resp.body@.len() == 0,
    {
        match content_length {
            Some(v) => {
                if is_visible_text(v.as_slice()) {
                    match parse_u64(v.as_slice()) {
                        Some(n) => {
                            if n > self.1 {
                                return Some(
                                    Response { status: 413, headers: Vec::new(), body: Vec::new() },
                                );
                            }
                        },
                        None => {},
                    }
                }
            },
            None => {},
        }
        None
    }
}

/// How limited work begins with a request.
pub enum LimitStart {
    /// Answer at once with this response; the work is not called.
    Refuse(Response),
    /// Call the work once, with the request's body read under this state.
    Call(LimitedBody),
}

impl<T> RequestBodyLimitWork<T> {
    /// Refuses a request whose `content-length` declares more than the
    /// limit with `413`; otherwise the work is called once, with the body
    /// read under the limit from the start.
    pub fn start(&self, content_length: &Option<Vec<u8>>) -> (r: LimitStart)
        ensures
            refused(opt_bytes(*content_length), self.limit()) ==> (r matches LimitStart::Refuse(
                resp,
            ) && resp.status == 413 && resp.headers@.len() == 0 && resp.body@.len() == 0),
            !refused(opt_bytes(*content_length), self.limit()) ==> (r matches LimitStart::Call(b)
                && b.limit == self.limit() as usize && b.read == 0),
    {
        match self.check(content_length) {
            Some(resp) => LimitStart::Refuse(resp),
            None => LimitStart::Call(limited_body(self.1)),
        }
    }
}

/// The answer of limited work that refused a request: the refusal, with
/// the work not called.
pub fn limit_refused<T, E>(resp: Response) -> (r: Result<RequestBodyLimitWorkResponse<T>, E>)
    ensures
        r == Ok::<RequestBodyLimitWorkResponse<T>, E>(RequestBodyLimitWorkResponse::Error(resp)),
{
    Ok(RequestBodyLimitWorkResponse::Error(resp))
}

/// The answer of limited work once the work answered: its output, or its
/// error unchanged.
pub fn limit_finish<T, E>(out: Result<T, E>) -> (r: Result<RequestBodyLimitWorkResponse<T>, E>)
    ensures
        match out {
            Ok(x) => r == Ok::<RequestBodyLimitWorkResponse<T>, E>(
                RequestBodyLimitWorkResponse::Work(x),
            ),
            Err(e) => r == Err::<RequestBodyLimitWorkResponse<T>, E>(e),
        },
{
    match out {
        Ok(x) => Ok(RequestBodyLimitWorkResponse::Work(x)),
        Err(e) => Err(e),
    }
}

impl RequestBodyLimitWorkResponse<Response> {
    /// The response: the refusal, or the inner work's.
    pub fn into_response(self) -> (r: Response)
        ensures
            match self {
                RequestBodyLimitWorkResponse::Error(e) => r == e,
                RequestBodyLimitWorkResponse::Work(w) => r == w,
            },
    {
        match self {
            RequestBodyLimitWorkResponse::Error(e) => e,
            RequestBodyLimitWorkResponse::Work(w) => w,
        }
    }
}

/// Law: a length written in decimal (as a JSON response declares its body's)
/// is read back as that length, so such a request is refused exactly when
/// the length exceeds the limit.
pub proof fn law_written_length_reads_back(n: u64, limit: u64)
    ensures
        declared_length(Some(decimal_spec(n as nat))) == Some(n),
        refused(Some(decimal_spec(n as nat)), limit) == (n > limit),
{
    law_decimal_reads_back(n);
    lemma_decimal_is_header_value(n as nat);
    let s = decimal_spec(n as nat);
    assert(all_visible_ascii(s)) by {
        assert forall|i: int| 0 <= i < s.len() implies crate::bytes_text::is_visible_ascii(
            #[trigger] s[i],
        ) by {
            assert(crate::bytes_text::is_digit(s[i]));
        }
    }
}

/// The state of a body read under a limit.
pub struct LimitedBody {
    pub limit: usize,
    pub read: usize,
}

/// The state in which a limited body starts.
pub fn limited_body(limit: u64) -> (r: LimitedBody)
    ensures
        r.limit == limit as usize,
        r.read == 0,
{
    LimitedBody { limit: limit as usize, read: 0 }
}

impl LimitedBody {
    /// Whether the body ends at the next poll without reading further.
    pub fn exhausted(&self) -> (r: bool)
        ensures
            r == (self.read >= self.limit),
    {
        self.read >= self.limit
    }

    /// Accounts for a frame that was passed on: a data frame of `len`
    /// bytes adds `len` to the limit; the count of bytes read stays as it
    /// was.
    pub fn on_frame(&mut self, data_len: Option<usize>)
        requires
            data_len matches Some(n) ==> old(self).limit + n <= usize::MAX,
        ensures
            final(self).read == old(self).read,
            final(self).limit == match data_len {
                Some(n) => (old(self).limit + n) as usize,
                None => old(self).limit,
            },
    {
        match data_len {
            Some(n) => {
                self.limit = self.limit + n;
            },
            None => {},
        }
    }
}

} // verus!
