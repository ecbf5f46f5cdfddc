//! HTTP requests: parsing the bytes read from a connection, and reading
//! their parts.
use vstd::prelude::*;
use crate::jvalue::{Json, JVal};
use crate::text;
use crate::url_util;
use crate::page::page_json_utility as pju;

verus! {

/// What httparse reads of a request: method, path, headers (names and raw
/// values, in order), and where the body starts when the head is complete.
pub struct ParsedRequest {
    pub method: Option<String>,
    pub path: Option<String>,
    pub headers: Vec<(String, Vec<u8>)>,
    pub body_offset: Option<usize>,
}

/// The view of a `ParsedRequest`.
pub struct ParsedRequestV {
    pub method: Option<Seq<char>>,
    pub path: Option<Seq<char>>,
    pub headers: Seq<(Seq<char>, Seq<u8>)>,
    pub body_offset: Option<usize>,
}

/// The view of optional text.
pub open spec fn opt_text(o: Option<String>) -> Option<Seq<char>> {
    match o {
        Some(s) => Some(s@),
        None => None,
    }
}

impl View for ParsedRequest {
    type V = ParsedRequestV;

    open spec fn view(&self) -> ParsedRequestV {
        ParsedRequestV {
            method: opt_text(self.method),
            path: opt_text(self.path),
            headers: Seq::new(self.headers.len() as nat, |i: int| (self.headers[i].0@, self.headers[i].1@)),
            body_offset: self.body_offset,
        }
    }
}

/// What httparse's `Request::parse` reads from the bytes with room for
/// `max_headers` headers; `None` when it finds an error (too many headers
/// among them).
pub uninterp spec fn http_parse_spec(data: Seq<u8>, max_headers: usize) -> Option<ParsedRequestV>;

/// The number of headers a request may have.
pub const MAX_HEADERS: usize = 64;

/// Parses the head of a request.
///
/// Claims of `httparse::Request::parse` (after `Request::new` with
/// `max_headers` empty headers): what it reads is a function of the bytes
/// and the room for headers, named `http_parse_spec`; a complete head ends
/// within the bytes (`Status::Complete` gives the number of bytes read).
#[verifier::external_body]
fn parse_request(data: &[u8], max_headers: usize) -> (r: Option<ParsedRequest>)
    ensures
        r matches Some(p) ==> http_parse_spec(data@, max_headers) == Some(p@),
        r matches Some(p) ==> (p.body_offset matches Some(o) ==> o <= data@.len()),
        r is None ==> http_parse_spec(data@, max_headers) is None,
{
    let mut headers = vec![httparse::EMPTY_HEADER; max_headers];
    let mut req = httparse::Request::new(&mut headers);
    let status = match req.parse(data) {
        Ok(s) => s,
        Err(_) => return None,
    };
    Some(ParsedRequest {
        method: req.method.map(|s| s.to_string()),
        path: req.path.map(|s| s.to_string()),
        headers: req.headers.iter().map(|h| (h.name.to_string(), h.value.to_vec())).collect(),
        body_offset: match status {
            httparse::Status::Complete(v) => Some(v),
            httparse::Status::Partial => None,
        },
    })
}

/// A request: method, path, headers (in order; for a name given twice the
/// last value counts) and body.
pub struct HttpRequest {
    pub method: String,
    pub path: String,
    pub header: Vec<(String, String)>,
    pub body: Vec<u8>,
}

/// The headers as texts, their values read as UTF-8 (lossily).
pub open spec fn headers_text(hs: Seq<(Seq<char>, Seq<u8>)>) -> Seq<(Seq<char>, Seq<char>)> {
    Seq::new(hs.len(), |i: int| (hs[i].0, text::utf8_lossy_spec(hs[i].1)))
}

/// The views of the headers.
pub open spec fn header_view(h: Seq<(String, String)>) -> Seq<(Seq<char>, Seq<char>)> {
    Seq::new(h.len(), |i: int| (h[i].0@, h[i].1@))
}

/// The value of the last header named `name`.
pub open spec fn header_spec(h: Seq<(Seq<char>, Seq<char>)>, name: Seq<char>) -> Option<Seq<char>>
    decreases h.len(),
{
    if h.len() == 0 {
        None
    } else if h.last().0 == name {
        Some(h.last().1)
    } else {
        header_spec(h.drop_last(), name)
    }
}

/// The request that the bytes hold: `None` when httparse finds an error or
/// an incomplete head, or no method or path.
pub open spec fn request_spec(data: Seq<u8>) -> Option<(Seq<char>, Seq<char>, Seq<(Seq<char>, Seq<char>)>, Seq<u8>)> {
    match http_parse_spec(data, MAX_HEADERS) {
        Some(p) => match (p.method, p.path, p.body_offset) {
            (Some(m), Some(path), Some(o)) => Some((m, path, headers_text(p.headers), data.subrange(o as int, data.len() as int))),
            _ => None,
        },
        None => None,
    }
}

/// The URL of a request: `https://`, its `Host` header and its path,
/// parsed; `None` without a host or when it does not parse.
pub open spec fn request_url_spec(h: Seq<(Seq<char>, Seq<char>)>, path: Seq<char>) -> Option<Seq<char>> {
    match header_spec(h, "Host"@) {
        Some(host) => url_util::url_parse_spec("https://"@ + host + path),
        None => None,
    }
}

impl HttpRequest {
    /// The request that the bytes read from a connection hold.
    pub fn from(stream_data: &[u8]) -> (r: Option<HttpRequest>)
        ensures
            r matches Some(q) ==> request_spec(stream_data@) == Some((q.method@, q.path@, header_view(q.header@), q.body@)),
            r is None ==> request_spec(stream_data@) is None,
    {
        let parsed = match parse_request(stream_data, MAX_HEADERS) {
            Some(p) => p,
            None => return None,
        };
        let ghost pv = parsed@;
        let method = match parsed.method {
            Some(s) => s,
            None => return None,
        };
        let path = match parsed.path {
            Some(s) => s,
            None => return None,
        };
        let ghost hs = pv.headers;
        let mut header: Vec<(String, String)> = Vec::new();
        let mut i: usize = 0;
        while i < parsed.headers.len()
            invariant
                i <= parsed.headers.len(),
                hs.len() == parsed.headers.len(),
                forall|j: int| 0 <= j < hs.len() ==> #[trigger] hs[j] == (parsed.headers@[j].0@, parsed.headers@[j].1@),
                header_view(header@) == headers_text(hs).subrange(0, i as int),
            decreases parsed.headers.len() - i,
        {
            let key = parsed.headers[i].0.clone();
            let value = text::from_utf8_lossy(parsed.headers[i].1.as_slice());
            let ghost before = header_view(header@);
            let ghost kv = (key@, value@);
            assert(hs[i as int] == (parsed.headers@[i as int].0@, parsed.headers@[i as int].1@));
            assert(kv == headers_text(hs)[i as int]);
            header.push((key, value));
            assert(header_view(header@) =~= before.push(kv));
            assert(header_view(header@) =~= headers_text(hs).subrange(0, i + 1));
            i = i + 1;
        }
        assert(headers_text(hs).subrange(0, i as int) =~= headers_text(hs));
        let body_offset = match parsed.body_offset {
            Some(v) => v,
            None => return None,
        };
        let mut body: Vec<u8> = Vec::new();
        let mut k: usize = body_offset;
        while k < stream_data.len()
            invariant
                body_offset <= k <= stream_data@.len(),
                body@ == stream_data@.subrange(body_offset as int, k as int),
            decreases stream_data.len() - k,
        {
            body.push(stream_data[k]);
            assert(body@ =~= stream_data@.subrange(body_offset as int, k + 1));
            k = k + 1;
        }
        Some(HttpRequest { method, path, header, body })
    }

    /// The URL that the request asks for.
    pub fn url(&self) -> (r: Option<String>)
        ensures
            r matches Some(u) ==> request_url_spec(header_view(self.header@), self.path@) == Some(u@),
            r is None ==> request_url_spec(header_view(self.header@), self.path@) is None,
    {
        let host = match self.header("Host") {
            Some(s) => s,
            None => return None,
        };
        let url = text::concat3("https://", host.as_str(), self.path.as_str());
        url_util::parse(url.as_str())
    }

    /// The value of the header named `name` (the last one given).
    pub fn header(&self, name: &str) -> (r: Option<&String>)
        ensures
            r matches Some(v) ==> header_spec(header_view(self.header@), name@) == Some(v@),
            r is None ==> header_spec(header_view(self.header@), name@) is None,
    {
        let ghost h = header_view(self.header@);
        let mut i: usize = self.header.len();
        assert(h.subrange(0, i as int) =~= h);
        while i > 0
            invariant
                i <= self.header.len(),
                h == header_view(self.header@),
                header_spec(h, name@) == header_spec(h.subrange(0, i as int), name@),
            decreases i,
        {
            assert(h.subrange(0, i as int).drop_last() =~= h.subrange(0, i - 1));
            assert(h[i - 1] == (self.header@[i - 1].0@, self.header@[i - 1].1@));
            if text::str_eq(self.header[i - 1].0.as_str(), name) {
                return Some(&self.header[i - 1].1);
            }
            i = i - 1;
        }
        None
    }

    /// The body as text, read as UTF-8 (lossily).
    pub fn body_string(&self) -> (r: String)
        ensures
            r@ == text::utf8_lossy_spec(self.body@),
    {
        text::from_utf8_lossy(self.body.as_slice())
    }

    /// The page data that the body holds: its text with entity references
    /// decoded, parsed.
    pub fn body_json_value(&self) -> (r: Option<Json>)
        ensures
            pju::opt_view(r) == pju::value_from_str_spec(
                pju::page_json_str_decode_spec(text::utf8_lossy_spec(self.body@)),
            ),
    {
        let body = self.body_string();
        let page_json_str = pju::page_json_str_decode(body.as_str());
        pju::page_json_value_from_str(page_json_str.as_str())
    }
}

} // verus!
