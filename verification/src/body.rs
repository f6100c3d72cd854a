use vstd::prelude::*;
use crate::bytes_text::str_bytes;

verus! {

/// A request or response body: bytes held in memory, or a streaming body
/// that is read frame by frame.
pub enum Body<S> {
    Reusable(Vec<u8>),
    Streaming(S),
}

/// What polling a body gives.
pub enum BodyPoll {
    /// A frame of data.
    Data(Vec<u8>),
    /// The end of the body.
    End,
    /// The streaming body must be polled.
    Inner,
}

/// Polling takes a body in memory to an empty one and hands out its bytes
/// as one frame, or the end when there were none; a streaming body is left
/// to be polled itself.
pub open spec fn poll_spec<S>(before: Body<S>, after: Body<S>, r: BodyPoll) -> bool {
    match before {
        Body::Reusable(b) => {
            &&& after matches Body::Reusable(a) && a@.len() == 0
            &&& if b@.len() == 0 {
                r is End
            } else {
                r matches BodyPoll::Data(d) && d@ == b@
            }
        },
        Body::Streaming(s) => after == Body::<S>::Streaming(s) && r is Inner,
    }
}

impl<S> Body<S> {
    /// A body without bytes.
    pub fn empty() -> (r: Body<S>)
        ensures
            r matches Body::Reusable(b) && b@.len() == 0,
    {
        Body::Reusable(Vec::new())
    }

    /// A body read from a stream.
    pub fn from_streaming(inner: S) -> (r: Body<S>)
        ensures
            r == Body::Streaming(inner),
    {
        Body::Streaming(inner)
    }

    /// A body holding `bytes`.
    pub fn from_bytes(bytes: Vec<u8>) -> (r: Body<S>)
        ensures
            r matches Body::Reusable(b) && b@ == bytes@,
    {
        Body::Reusable(bytes)
    }

    /// A body holding the UTF-8 bytes of `text`.
    pub fn from_text(text: &str) -> (r: Body<S>)
        ensures
            r matches Body::Reusable(b) && b@ == crate::bytes_text::utf8(text@),
    {
        Body::Reusable(str_bytes(text))
    }

    /// Polls the body: a body in memory hands out all its bytes as one
    /// frame and is then empty; an empty one has ended.
    pub fn poll_frame(&mut self) -> (r: BodyPoll)
        ensures
            poll_spec(*old(self), *final(self), r),
    {
        match self {
            Body::Reusable(bytes) => {
                let mut out: Vec<u8> = Vec::new();
                std::mem::swap(bytes, &mut out);
                if out.len() == 0 {
                    BodyPoll::End
                } else {
                    BodyPoll::Data(out)
                }
            },
            Body::Streaming(_) => BodyPoll::Inner,
        }
    }

    /// The exact size of a body in memory; `None` for a streaming one,
    /// whose own hint stands.
    pub fn size_hint(&self) -> (r: Option<u64>)
        ensures
            match *self {
                Body::Reusable(b) => r == Some(b@.len() as u64),
                Body::Streaming(_) => r is None,
            },
    {
        match self {
            Body::Reusable(bytes) => Some(bytes.len() as u64),
            Body::Streaming(_) => None,
        }
    }

    /// Whether a body in memory has no bytes left; `None` for a streaming
    /// one, which answers for itself.
    pub fn is_end_stream(&self) -> (r: Option<bool>)
        ensures
            match *self {
                Body::Reusable(b) => r == Some(b@.len() == 0),
                Body::Streaming(_) => r is None,
            },
    {
        match self {
            Body::Reusable(bytes) => Some(bytes.len() == 0),
            Body::Streaming(_) => None,
        }
    }
}

/// Law: a body in memory yields its bytes in one frame; the next poll
/// finds its end.
pub proof fn law_reusable_body_yields_once<S>(
    b0: Body<S>,
    b1: Body<S>,
    b2: Body<S>,
    r1: BodyPoll,
    r2: BodyPoll,
)
    requires
        b0 is Reusable,
        poll_spec(b0, b1, r1),
        poll_spec(b1, b2, r2),
    ensures
        r2 is End,
        match b0 {
            Body::Reusable(b) => b@.len() > 0 ==> (r1 matches BodyPoll::Data(d) && d@ == b@),
            Body::Streaming(_) => true,
        },
{
}

} // verus!
