//! Requests to other services and answers to clients, as plain values.

use crate::json;
use crate::json::{Fields, Json};
use crate::text;
use vstd::prelude::*;

verus! {

/// The method of a request.
#[derive(Clone, Copy, Debug, PartialEq, Eq, Structural)]
pub enum Method {
    Get,
    Post,
    Delete,
}

/// What a request or an answer carries.
#[derive(Debug)]
pub enum Payload {
    Empty,
    /// Plain text.
    Text(String),
    /// A page.
    Html(String),
    Json(Json),
    /// Bytes of the given media type, which is empty where none is given.
    Bytes(String, Vec<u8>),
}

/// What a [`Payload`] is.
pub enum PayloadView {
    Empty,
    Text(Seq<char>),
    Html(Seq<char>),
    Json(json::Tree),
    Bytes(Seq<char>, Seq<u8>),
}

impl Payload {
    pub open spec fn view(&self) -> PayloadView {
        match self {
            Payload::Empty => PayloadView::Empty,
            Payload::Text(s) => PayloadView::Text(s@),
            Payload::Html(s) => PayloadView::Html(s@),
            Payload::Json(j) => PayloadView::Json(j@),
            Payload::Bytes(t, b) => PayloadView::Bytes(t@, b@),
        }
    }
}

/// A header of a request or an answer.
#[derive(Debug)]
pub struct Header {
    pub name: String,
    pub value: String,
}

/// The names and values of headers.
pub open spec fn headers_view(h: Seq<Header>) -> Seq<(Seq<char>, Seq<char>)> {
    Seq::new(h.len(), |i: int| (h[i].name@, h[i].value@))
}

/// A request to another service.
#[derive(Debug)]
pub struct Outgoing {
    pub method: Method,
    pub url: String,
    pub headers: Vec<Header>,
    pub payload: Payload,
}

/// What an [`Outgoing`] is.
pub struct OutgoingView {
    pub method: Method,
    pub url: Seq<char>,
    pub headers: Seq<(Seq<char>, Seq<char>)>,
    pub payload: PayloadView,
}

/// A request without headers and without a payload.
pub open spec fn bare(method: Method, url: Seq<char>) -> OutgoingView {
    OutgoingView { method, url, headers: Seq::empty(), payload: PayloadView::Empty }
}

impl Outgoing {
    pub open spec fn view(&self) -> OutgoingView {
        OutgoingView {
            method: self.method,
            url: self.url@,
            headers: headers_view(self.headers@),
            payload: self.payload@,
        }
    }

    /// A request without headers and without a payload.
    pub fn new(method: Method, url: String) -> (r: Outgoing)
        ensures
            r@ == bare(method, url@),
    {
        let r = Outgoing { method, url, headers: Vec::new(), payload: Payload::Empty };
        assert(r@.headers =~= Seq::empty());
        r
    }

    /// The request with one more header.
    pub fn header(self, name: &str, value: &str) -> (r: Outgoing)
        ensures
            r@ == self@.with_header(name@, value@),
    {
        let mut r = self;
        let h = Header { name: name.to_owned(), value: value.to_owned() };
        let ghost before = r.headers@;
        r.headers.push(h);
        assert(headers_view(r.headers@) =~= headers_view(before).push((name@, value@)));
        r
    }

    /// The request with a JSON payload.
    pub fn json(self, body: Json) -> (r: Outgoing)
        ensures
            r@ == self@.with_json(body@),
    {
        let mut r = self;
        r.payload = Payload::Json(body);
        r
    }

    /// The request with a text as its payload.
    pub fn text(self, body: &str) -> (r: Outgoing)
        ensures
            r@ == self@.with_text(body@),
    {
        let mut r = self;
        r.payload = Payload::Text(body.to_owned());
        r
    }

    /// The request with the key as a bearer token, where there is a key.
    pub fn bearer(self, key: &str) -> (r: Outgoing)
        ensures
            r@ == self@.with_bearer(key@),
    {
        if key.is_empty() {
            self
        } else {
            self.header("Authorization", &text::join2("Bearer ", key))
        }
    }
}

impl OutgoingView {
    /// The request with one more header.
    pub open spec fn with_header(self, name: Seq<char>, value: Seq<char>) -> OutgoingView {
        OutgoingView { headers: self.headers.push((name, value)), ..self }
    }

    /// The request with a JSON payload.
    pub open spec fn with_json(self, body: json::Tree) -> OutgoingView {
        OutgoingView { payload: PayloadView::Json(body), ..self }
    }

    /// The request with a text as its payload.
    pub open spec fn with_text(self, body: Seq<char>) -> OutgoingView {
        OutgoingView { payload: PayloadView::Text(body), ..self }
    }

    /// The request with the key as a bearer token, where there is a key.
    pub open spec fn with_bearer(self, key: Seq<char>) -> OutgoingView {
        if key.len() == 0 {
            self
        } else {
            self.with_header("Authorization"@, "Bearer "@ + key)
        }
    }
}

/// An answer to a client.
#[derive(Debug)]
pub struct Reply {
    pub status: u16,
    pub headers: Vec<Header>,
    pub payload: Payload,
}

/// What a [`Reply`] is.
pub struct ReplyView {
    pub status: u16,
    pub headers: Seq<(Seq<char>, Seq<char>)>,
    pub payload: PayloadView,
}

/// An answer with a status alone.
pub open spec fn status_only(status: u16) -> ReplyView {
    ReplyView { status, headers: Seq::empty(), payload: PayloadView::Empty }
}

/// An answer with a text.
pub open spec fn text_reply(status: u16, body: Seq<char>) -> ReplyView {
    ReplyView { status, headers: Seq::empty(), payload: PayloadView::Text(body) }
}

/// An answer with a page.
pub open spec fn html_reply(status: u16, body: Seq<char>) -> ReplyView {
    ReplyView { status, headers: Seq::empty(), payload: PayloadView::Html(body) }
}

/// An answer with a JSON value.
pub open spec fn json_reply(status: u16, body: json::Tree) -> ReplyView {
    ReplyView { status, headers: Seq::empty(), payload: PayloadView::Json(body) }
}

/// `{"error": message}`.
pub open spec fn error_tree(message: Seq<char>) -> json::Tree {
    json::Tree::Object(seq![("error"@, json::Tree::Text(message))])
}

impl Reply {
    pub open spec fn view(&self) -> ReplyView {
        ReplyView {
            status: self.status,
            headers: headers_view(self.headers@),
            payload: self.payload@,
        }
    }

    fn new(status: u16, payload: Payload) -> (r: Reply)
        ensures
            r@ == (ReplyView { status, headers: Seq::empty(), payload: payload@ }),
    {
        let r = Reply { status, headers: Vec::new(), payload };
        assert(r@.headers =~= Seq::empty());
        r
    }

    /// An answer with a status alone.
    pub fn empty(status: u16) -> (r: Reply)
        ensures
            r@ == status_only(status),
    {
        Reply::new(status, Payload::Empty)
    }

    /// An answer with a text.
    pub fn text(status: u16, body: &str) -> (r: Reply)
        ensures
            r@ == text_reply(status, body@),
    {
        Reply::new(status, Payload::Text(body.to_owned()))
    }

    /// An answer with a page.
    pub fn html(status: u16, body: &str) -> (r: Reply)
        ensures
            r@ == html_reply(status, body@),
    {
        Reply::new(status, Payload::Html(body.to_owned()))
    }

    /// An answer with a JSON value.
    pub fn json(status: u16, body: Json) -> (r: Reply)
        ensures
            r@ == json_reply(status, body@),
    {
        Reply::new(status, Payload::Json(body))
    }

    /// An answer with bytes of a media type.
    pub fn bytes(status: u16, media_type: &str, body: Vec<u8>) -> (r: Reply)
        ensures
            r@ == (ReplyView {
                status,
                headers: Seq::empty(),
                payload: PayloadView::Bytes(media_type@, body@),
            }),
    {
        Reply::new(status, Payload::Bytes(media_type.to_owned(), body))
    }

    /// An answer with `{"error": message}`.
    pub fn error(status: u16, message: &str) -> (r: Reply)
        ensures
            r@ == json_reply(status, error_tree(message@)),
    {
        let f = Fields::new().with("error", Json::text(message));
        Reply::json(status, f.done())
    }

    /// The answer with one more header.
    pub fn header(self, name: &str, value: &str) -> (r: Reply)
        ensures
            r@ == (ReplyView { headers: self@.headers.push((name@, value@)), ..self@ }),
    {
        let mut r = self;
        let h = Header { name: name.to_owned(), value: value.to_owned() };
        let ghost before = r.headers@;
        r.headers.push(h);
        assert(headers_view(r.headers@) =~= headers_view(before).push((name@, value@)));
        r
    }
}

/// What to do about a request: send another one, or answer at once.
pub open spec fn outcome(r: Result<Outgoing, Reply>) -> Result<OutgoingView, ReplyView> {
    match r {
        Ok(q) => Ok(q@),
        Err(e) => Err(e@),
    }
}

/// What came of a request to another service.
#[derive(Debug)]
pub enum Upstream {
    /// No answer came; the message says why.
    Failed(String),
    /// An answer came: its status, its text where the status tells of an error, and its JSON
    /// value where it has one.
    Got(u16, String, Option<Json>),
}

/// What an [`Upstream`] is.
pub enum UpstreamView {
    Failed(Seq<char>),
    Got(u16, Seq<char>, Option<json::Tree>),
}

/// The tree of an optional value.
pub open spec fn owned_tree(o: Option<Json>) -> Option<json::Tree> {
    match o {
        Some(j) => Some(j@),
        None => None,
    }
}

impl Upstream {
    pub open spec fn view(&self) -> UpstreamView {
        match self {
            Upstream::Failed(m) => UpstreamView::Failed(m@),
            Upstream::Got(s, t, p) => UpstreamView::Got(*s, t@, owned_tree(*p)),
        }
    }
}

/// Whether a status tells of success.
pub open spec fn success(status: u16) -> bool {
    200 <= status < 300
}

/// Whether a status tells of success.
pub fn is_success(status: u16) -> (r: bool)
    ensures
        r == success(status),
{
    200 <= status && status < 300
}

/// A status that can be passed on: any of three digits; an internal error in the place of
/// another.
pub open spec fn passed_status(status: u16) -> u16 {
    if 100 <= status < 1000 {
        status
    } else {
        500
    }
}

/// A status that can be passed on.
pub fn pass_status(status: u16) -> (r: u16)
    ensures
        r == passed_status(status),
{
    if 100 <= status && status < 1000 {
        status
    } else {
        500
    }
}

/// The value of a successful answer, passed on; anything else is an internal error.
pub open spec fn relayed(u: UpstreamView) -> ReplyView {
    match u {
        UpstreamView::Got(s, _, Some(j)) => if success(s) {
            json_reply(200, j)
        } else {
            status_only(500)
        },
        _ => status_only(500),
    }
}

/// Passes the value of a successful answer on; anything else is an internal error.
pub fn relay(u: Upstream) -> (r: Reply)
    ensures
        r@ == relayed(u@),
{
    match u {
        Upstream::Got(s, _, Some(j)) => if is_success(s) {
            Reply::json(200, j)
        } else {
            Reply::empty(500)
        },
        _ => Reply::empty(500),
    }
}

/// The value of a successful answer, or the status and text of another, passed on; an
/// internal error where no answer came or where it is no JSON.
pub open spec fn relayed_with_error(u: UpstreamView) -> ReplyView {
    match u {
        UpstreamView::Got(s, t, p) => if success(s) {
            match p {
                Some(j) => json_reply(200, j),
                None => status_only(500),
            }
        } else {
            text_reply(passed_status(s), t)
        },
        UpstreamView::Failed(_) => status_only(500),
    }
}

/// Passes the value of a successful answer, or the status and text of another, on.
pub fn relay_with_error(u: Upstream) -> (r: Reply)
    ensures
        r@ == relayed_with_error(u@),
{
    match u {
        Upstream::Got(s, t, p) => if is_success(s) {
            match p {
                Some(j) => Reply::json(200, j),
                None => Reply::empty(500),
            }
        } else {
            Reply::text(pass_status(s), &t)
        },
        Upstream::Failed(_) => Reply::empty(500),
    }
}

/// `{"error": true}`.
pub open spec fn true_error() -> json::Tree {
    json::Tree::Object(seq![("error"@, json::Tree::Bool(true))])
}

/// `{"error": true}`.
pub fn error_flag() -> (r: Json)
    ensures
        r@ == true_error(),
{
    Fields::new().with("error", Json::Bool(true)).done()
}

/// What came of a request for bytes.
#[derive(Debug)]
pub enum Download {
    /// No answer came.
    Failed,
    /// An answer came: its status, and its bytes where they could be read.
    Got(u16, Option<Vec<u8>>),
}

/// The bytes of a successful answer, passed on as of the media type; anything else is an
/// internal error.
pub open spec fn relayed_bytes(d: Download, media_type: Seq<char>) -> ReplyView {
    match d {
        Download::Got(s, Some(b)) => if success(s) {
            ReplyView {
                status: 200,
                headers: Seq::empty(),
                payload: PayloadView::Bytes(media_type, b@),
            }
        } else {
            status_only(500)
        },
        _ => status_only(500),
    }
}

/// Passes the bytes of a successful answer on; anything else is an internal error.
pub fn relay_bytes(d: Download, media_type: &str) -> (r: Reply)
    ensures
        r@ == relayed_bytes(d, media_type@),
{
    match d {
        Download::Got(s, Some(b)) => if is_success(s) {
            Reply::bytes(200, media_type, b)
        } else {
            Reply::empty(500)
        },
        _ => Reply::empty(500),
    }
}

} // verus!
