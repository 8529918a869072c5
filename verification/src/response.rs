use vstd::prelude::*;
use crate::fields::Fields;

verus! {

/// A byte stream delivering a response body, whole-message.
pub struct InputStream {
    pub data: Vec<u8>,
}

impl InputStream {
    /// Reads up to `max_bytes` from the front of the stream.
    pub fn blocking_read(&mut self, max_bytes: u64) -> (r: Vec<u8>)
        ensures
            old(self).data@.len() <= usize::MAX,
            ({
                let n = if max_bytes < old(self).data@.len() {
                    max_bytes as int
                } else {
                    old(self).data@.len() as int
                };
                r@ == old(self).data@.take(n) && final(self).data@ == old(self).data@.skip(n)
            }),
    {
        if max_bytes >= self.data.len() as u64 {
            let mut taken: Vec<u8> = Vec::new();
            core::mem::swap(&mut self.data, &mut taken);
            proof {
                assert(taken@ =~= old(self).data@.take(old(self).data@.len() as int));
                assert(self.data@ =~= old(self).data@.skip(old(self).data@.len() as int));
            }
            taken
        } else {
            let n = max_bytes as usize;
            let mut front: Vec<u8> = Vec::new();
            let mut i: usize = 0;
            while i < n
                invariant
                    i <= n,
                    n <= self.data@.len(),
                    *self == *old(self),
                    front@ == self.data@.take(i as int),
                decreases n - i,
            {
                front.push(self.data[i]);
                proof {
                    assert(front@ =~= self.data@.take(i + 1 as int));
                }
                i = i + 1;
            }
            let mut rest: Vec<u8> = Vec::new();
            let mut j: usize = n;
            while j < self.data.len()
                invariant
                    n <= j <= self.data@.len(),
                    *self == *old(self),
                    rest@ == self.data@.subrange(n as int, j as int),
                decreases self.data@.len() - j,
            {
                rest.push(self.data[j]);
                proof {
                    assert(rest@ =~= self.data@.subrange(n as int, j + 1 as int));
                }
                j = j + 1;
            }
            self.data = rest;
            proof {
                assert(self.data@ =~= old(self).data@.skip(n as int));
            }
            front
        }
    }
}

/// A response body whose stream may be acquired at most once.
pub struct IncomingBody {
    pub stream: Option<InputStream>,
}

impl IncomingBody {
    /// Takes the body's stream.
    ///
    /// The first successful acquisition empties the slot; a second attempt
    /// fails explicitly instead of panicking.
    pub fn stream(&mut self) -> (r: Result<InputStream, ()>)
        ensures
            r is Ok <==> old(self).stream is Some,
            r matches Ok(s) ==> old(self).stream == Some(s),
            final(self).stream is None,
    {
        let mut taken: Option<InputStream> = None;
        core::mem::swap(&mut self.stream, &mut taken);
        match taken {
            Some(s) => Ok(s),
            None => Err(()),
        }
    }
}

/// A body holding no bytes.
pub fn empty() -> (r: IncomingBody)
    ensures
        r.stream matches Some(s) && s.data@ == Seq::<u8>::empty(),
{
    let r = IncomingBody { stream: Some(InputStream { data: Vec::new() }) };
    proof {
        assert(r.stream->Some_0.data@ =~= Seq::<u8>::empty());
    }
    r
}

/// A body holding the given bytes.
pub fn full(body: Vec<u8>) -> (r: IncomingBody)
    ensures
        r.stream matches Some(s) && s.data == body,
{
    IncomingBody { stream: Some(InputStream { data: body }) }
}

/// The host response as the runner sees it: status, headers, and a body
/// that is consumable at most once.
pub struct IncomingResponse {
    pub status: u16,
    pub headers: Fields,
    pub body: Option<IncomingBody>,
}

impl IncomingResponse {
    /// A response over a status, headers and a body.
    pub fn new(status: u16, headers: Fields, body: IncomingBody) -> (r: IncomingResponse)
        ensures
            r.status == status,
            r.headers@ == headers@,
            r.body == Some(body),
    {
        IncomingResponse { status, headers, body: Some(body) }
    }

    /// The status code.
    pub fn status(&self) -> (r: u16)
        ensures
            r == self.status,
    {
        self.status
    }

    /// A copy of the headers.
    pub fn headers(&self) -> (r: Fields)
        ensures
            r@ == self.headers@,
    {
        self.headers.duplicate()
    }

    /// Takes the response body.
    ///
    /// The body is consumable at most once: after the first success the
    /// slot is empty and a second attempt fails explicitly.
    pub fn consume(&mut self) -> (r: Result<IncomingBody, ()>)
        ensures
            r is Ok <==> old(self).body is Some,
            r matches Ok(b) ==> old(self).body == Some(b),
            final(self).body is None,
            final(self).status == old(self).status,
            final(self).headers == old(self).headers,
    {
        let mut taken: Option<IncomingBody> = None;
        core::mem::swap(&mut self.body, &mut taken);
        match taken {
            Some(b) => Ok(b),
            None => Err(()),
        }
    }
}

} // verus!
