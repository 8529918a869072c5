use vstd::prelude::*;
use vstd::string::StringExecFns;
use crate::fields::Fields;
use crate::fields::valid_header_name;

verus! {

/// An HTTP request method.
pub enum Method {
    Get,
    Head,
    Post,
    Put,
    Delete,
    Connect,
    Options,
    Trace,
    Patch,
    Other(String),
}

/// A URI scheme.
pub enum Scheme {
    Http,
    Https,
    Other(String),
}

/// The error a guest-to-host request conversion can fail with.
#[derive(Clone, Copy, Debug, PartialEq, Eq, Structural)]
pub enum RequestError {
    InvalidMethod,
}

/// A method is valid when a non-standard one spells a non-empty token.
pub open spec fn valid_method(m: Method) -> bool {
    match m {
        Method::Other(o) => valid_header_name(o@),
        _ => true,
    }
}

/// The canonical text of a method.
pub open spec fn method_text(m: Method) -> Seq<char> {
    match m {
        Method::Get => "GET"@,
        Method::Head => "HEAD"@,
        Method::Post => "POST"@,
        Method::Put => "PUT"@,
        Method::Delete => "DELETE"@,
        Method::Connect => "CONNECT"@,
        Method::Options => "OPTIONS"@,
        Method::Trace => "TRACE"@,
        Method::Patch => "PATCH"@,
        Method::Other(o) => o@,
    }
}

/// The text a scheme resolves to: absent defaults to `http`.
pub open spec fn scheme_text(s: Option<Scheme>) -> Seq<char> {
    match s {
        None => "http"@,
        Some(Scheme::Http) => "http"@,
        Some(Scheme::Https) => "https"@,
        Some(Scheme::Other(o)) => o@,
    }
}

/// The view of an optional string.
pub open spec fn opt_text(s: Option<String>) -> Option<Seq<char>> {
    match s {
        None => None,
        Some(t) => Some(t@),
    }
}

/// A path-with-query is valid when every character is visible ASCII.
pub open spec fn valid_path_with_query(s: Seq<char>) -> bool {
    forall|i: int| 0 <= i < s.len() ==> 33 <= (#[trigger] s[i]) as u32 <= 126
}

/// The URI a request resolves to: scheme, authority (default
/// `localhost:3000`) and path-with-query (default `/`).
pub open spec fn spec_uri(
    scheme: Option<Scheme>,
    authority: Option<Seq<char>>,
    path_with_query: Option<Seq<char>>,
) -> Seq<char> {
    scheme_text(scheme) + "://"@ + (match authority {
        Some(a) => a,
        None => "localhost:3000"@,
    }) + (match path_with_query {
        Some(p) => p,
        None => "/"@,
    })
}

/// A copy of a method value.
pub fn duplicate_method(m: &Method) -> (r: Method)
    ensures
        r == *m,
{
    match m {
        Method::Get => Method::Get,
        Method::Head => Method::Head,
        Method::Post => Method::Post,
        Method::Put => Method::Put,
        Method::Delete => Method::Delete,
        Method::Connect => Method::Connect,
        Method::Options => Method::Options,
        Method::Trace => Method::Trace,
        Method::Patch => Method::Patch,
        Method::Other(o) => Method::Other(o.clone()),
    }
}

fn check_path(path: &str) -> (r: bool)
    ensures
        r == valid_path_with_query(path@),
{
    let len = vstd::string::StrSliceExecFns::unicode_len(path);
    let mut i: usize = 0;
    while i < len
        invariant
            i <= len,
            len == path@.len(),
            forall|j: int| 0 <= j < i ==> 33 <= (#[trigger] path@[j]) as u32 <= 126,
        decreases len - i,
    {
        let c = vstd::string::StrSliceExecFns::get_char(path, i);
        let u = c as u32;
        if !(33 <= u && u <= 126) {
            return false;
        }
        i = i + 1;
    }
    true
}

/// The guest-visible outgoing form of a request.
pub struct OutgoingRequest {
    pub method: Method,
    pub scheme: Option<Scheme>,
    pub authority: Option<String>,
    pub path_with_query: Option<String>,
    pub headers: Fields,
    pub body: Option<Vec<u8>>,
}

impl OutgoingRequest {
    /// A fresh request over the given headers: method GET, no scheme,
    /// authority, path or body.
    pub fn new(headers: Fields) -> (r: OutgoingRequest)
        ensures
            r.method is Get,
            r.scheme is None,
            r.authority is None,
            r.path_with_query is None,
            r.headers@ == headers@,
            r.body is None,
    {
        OutgoingRequest {
            method: Method::Get,
            scheme: None,
            authority: None,
            path_with_query: None,
            headers,
            body: None,
        }
    }

    /// Sets (or clears) the path-with-query, validating its characters.
    pub fn set_path_with_query(&mut self, path: Option<&str>) -> (r: Result<(), ()>)
        ensures
            r is Ok <==> (match path {
                Some(p) => valid_path_with_query(p@),
                None => true,
            }),
            r is Ok ==> opt_text(final(self).path_with_query) == (match path {
                Some(p) => Some(p@),
                None => None::<Seq<char>>,
            }),
            r is Err ==> *final(self) == *old(self),
            final(self).method == old(self).method,
            final(self).scheme == old(self).scheme,
            final(self).authority == old(self).authority,
            final(self).headers == old(self).headers,
            final(self).body == old(self).body,
    {
        match path {
            None => {
                self.path_with_query = None;
                Ok(())
            },
            Some(p) => {
                if check_path(p) {
                    self.path_with_query = Some(String::from_str(p));
                    Ok(())
                } else {
                    Err(())
                }
            },
        }
    }

    /// Sets the method, validating a non-standard one as a token.
    pub fn set_method(&mut self, m: Method) -> (r: Result<(), ()>)
        ensures
            r is Ok <==> valid_method(m),
            r is Ok ==> final(self).method == m,
            r is Err ==> *final(self) == *old(self),
            final(self).scheme == old(self).scheme,
            final(self).authority == old(self).authority,
            final(self).path_with_query == old(self).path_with_query,
            final(self).headers == old(self).headers,
            final(self).body == old(self).body,
    {
        let ok = match &m {
            Method::Other(o) => crate::fields::check_header_name(o.as_str()),
            _ => true,
        };
        if ok {
            self.method = m;
            Ok(())
        } else {
            Err(())
        }
    }
}

/// The host-native incoming form of a request.
pub struct IncomingRequest {
    pub method: Method,
    pub uri: String,
    pub headers: Fields,
    pub body: Vec<u8>,
}

impl IncomingRequest {
    /// Converts a guest outgoing request to the host-native form.
    ///
    /// This is the crossing point: the scheme resolves to text (absent
    /// defaults to `http`), the authority and path defaults apply, the
    /// headers are copied verbatim, and ownership of the body moves — the
    /// guest-side slot is empty afterwards, so the transfer happens at
    /// most once.  Fails exactly when a non-standard method is not a
    /// token.
    pub fn new(req: &mut OutgoingRequest) -> (r: Result<IncomingRequest, RequestError>)
        ensures
            r is Ok <==> valid_method(old(req).method),
            r matches Err(e) ==> e == RequestError::InvalidMethod && *final(req) == *old(req),
            r matches Ok(inc) ==> {
                &&& inc.method == old(req).method
                &&& inc.uri@ == spec_uri(
                    old(req).scheme,
                    opt_text(old(req).authority),
                    opt_text(old(req).path_with_query),
                )
                &&& inc.headers@ == old(req).headers@
                &&& inc.body@ == (match old(req).body {
                    Some(b) => b@,
                    None => Seq::<u8>::empty(),
                })
                &&& final(req).body is None
                &&& final(req).method == old(req).method
                &&& final(req).scheme == old(req).scheme
                &&& final(req).authority == old(req).authority
                &&& final(req).path_with_query == old(req).path_with_query
                &&& final(req).headers == old(req).headers
            },
    {
        let method_ok = match &req.method {
            Method::Other(o) => crate::fields::check_header_name(o.as_str()),
            _ => true,
        };
        if !method_ok {
            return Err(RequestError::InvalidMethod);
        }
        let mut uri: String = match &req.scheme {
            None => String::from_str("http"),
            Some(Scheme::Http) => String::from_str("http"),
            Some(Scheme::Https) => String::from_str("https"),
            Some(Scheme::Other(o)) => o.clone(),
        };
        uri.append("://");
        match &req.authority {
            Some(a) => uri.append(a.as_str()),
            None => uri.append("localhost:3000"),
        };
        match &req.path_with_query {
            Some(p) => uri.append(p.as_str()),
            None => uri.append("/"),
        };
        let method = duplicate_method(&req.method);
        let headers = req.headers.duplicate();
        let mut taken: Option<Vec<u8>> = None;
        core::mem::swap(&mut req.body, &mut taken);
        let body: Vec<u8> = match taken {
            Some(b) => b,
            None => Vec::new(),
        };
        let inc = IncomingRequest { method, uri, headers, body };
        proof {
            if old(req).body is None {
                assert(inc.body@ =~= Seq::<u8>::empty());
            }
        }
        Ok(inc)
    }
}

} // verus!
