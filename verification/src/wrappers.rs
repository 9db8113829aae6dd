//! The request and response objects.

use crate::datastructures::{lemma_set_then_get, pair_views, with_header, Headers, MultiDict};
use crate::httputils::{content_type_text, get_content_type, get_name_by_http_code, status_text};
use crate::text::{
    byte_len, decimal, folded, format_number, is_form_content_type, lemma_decimal_round_trip, names_form_data,
    parse_number, parse_number_spec, str_eq, trim_leading_slashes, without_leading_slashes,
};
use crate::uri::{
    opt_parts_view, opt_view, parse_url, parse_urlencoded, parsed_url, percent_decode,
    percent_decoded, urlencoded_pairs, UrlParts,
};
use vstd::prelude::*;
use vstd::string::*;

verus! {

/// The target of a request line.
#[derive(Clone, Debug)]
pub enum RequestUri {
    Star,
    AbsoluteUri(String),
    AbsolutePath(String),
    Authority(String),
}

/// A request as the transport layer hands it over: the request line and the
/// headers already taken apart, the body as it came.
#[derive(Clone, Debug)]
pub struct RawRequest {
    pub remote_addr: Option<String>,
    pub headers: Headers,
    pub body: Vec<u8>,
    pub method: String,
    pub request_uri: RequestUri,
}

/// The absolute URL of a request for `target` sent to `host`.
pub open spec fn absolute_url_text(host: Seq<char>, target: Seq<char>) -> Seq<char> {
    "http://"@ + host + "/"@ + without_leading_slashes(target)
}

/// The absolute URL of a request: there is one when the target is a path and
/// a `Host` header is present.
pub open spec fn url_text(request: &RawRequest) -> Option<Seq<char>> {
    match request.request_uri {
        RequestUri::AbsolutePath(target) => match request.headers.spec_get("Host"@) {
            Some(host) => Some(absolute_url_text(host, target@)),
            None => None,
        },
        _ => None,
    }
}

/// The query arguments of a URL given by its parts.
pub open spec fn query_args(url: Option<(Seq<char>, Option<Seq<char>>)>) -> Seq<
    (Seq<char>, Seq<char>),
> {
    match url {
        Some((_, Some(query))) => urlencoded_pairs(vstd::utf8::encode_utf8(query)),
        _ => Seq::empty(),
    }
}

/// The form fields of a request: the pairs of its body where the content
/// type announces URL-encoded form data, none otherwise.
pub open spec fn form_fields(request: &RawRequest) -> Seq<(Seq<char>, Seq<char>)> {
    match request.headers.spec_get("Content-Type"@) {
        Some(value) => if is_form_content_type(value) {
            urlencoded_pairs(request.body@)
        } else {
            Seq::empty()
        },
        None => Seq::empty(),
    }
}

/// `path`, followed by `?` and `query` where both are present.
pub open spec fn path_with_query(path: Option<Seq<char>>, query: Option<Seq<char>>) -> Option<
    Seq<char>,
> {
    match (path, query) {
        (Some(p), Some(q)) => Some(p + "?"@ + q),
        _ => path,
    }
}

/// `root` followed by `path` without its leading slashes, where both are
/// present.
pub open spec fn url_under(root: Option<Seq<char>>, path: Option<Seq<char>>) -> Option<
    Seq<char>,
> {
    match (root, path) {
        (Some(r), Some(p)) => Some(r + without_leading_slashes(p)),
        _ => None,
    }
}

/// The root URL of `host` under `scheme`.
pub open spec fn root_url(scheme: Seq<char>, host: Seq<char>) -> Seq<char> {
    scheme + "://"@ + host + "/"@
}

/// Builds the absolute URL of a request, for the parser.
pub fn absolute_url(request: &RawRequest) -> (r: Option<String>)
    ensures
        opt_view(r) == url_text(request),
{
    match &request.request_uri {
        RequestUri::AbsolutePath(target) => match request.headers.get("Host") {
            Some(host) => {
                let mut text = String::from_str("http://");
                text.append(host.as_str());
                text.append("/");
                text.append(trim_leading_slashes(target.as_str()));
                Some(text)
            },
            None => None,
        },
        _ => None,
    }
}

/// Appends the query to the path, where there are both.
pub fn join_path_query(path: Option<String>, query: Option<String>) -> (r: Option<String>)
    ensures
        opt_view(r) == path_with_query(opt_view(path), opt_view(query)),
{
    match path {
        Some(p) => match query {
            Some(q) => {
                let mut text = p;
                text.append("?");
                text.append(q.as_str());
                Some(text)
            },
            None => Some(p),
        },
        None => None,
    }
}

/// Puts a path under a root URL, where there are both.
pub fn join_url(root: Option<String>, path: Option<String>) -> (r: Option<String>)
    ensures
        opt_view(r) == url_under(opt_view(root), opt_view(path)),
{
    match root {
        Some(h) => match path {
            Some(p) => {
                let mut text = h;
                text.append(trim_leading_slashes(p.as_str()));
                Some(text)
            },
            None => None,
        },
        None => None,
    }
}

fn clone_opt(o: &Option<String>) -> (r: Option<String>)
    ensures
        r == *o,
{
    match o {
        Some(s) => Some(s.clone()),
        None => None,
    }
}

/// Request type: a raw request with the views derived from it.
#[derive(Debug)]
pub struct Request {
    pub request: RawRequest,
    url: Option<UrlParts>,
    args: Option<MultiDict>,
    form: Option<MultiDict>,
}

impl Request {
    /// The raw request that this one wraps.
    pub closed spec fn raw(&self) -> RawRequest {
        self.request
    }

    /// Path and query of the parsed URL, if the request has one.
    pub closed spec fn spec_url(&self) -> Option<(Seq<char>, Option<Seq<char>>)> {
        opt_parts_view(self.url)
    }

    /// The query arguments, once they have been computed.
    pub closed spec fn cached_args(&self) -> Option<Seq<(Seq<char>, Seq<char>)>> {
        match self.args {
            Some(d) => Some(d@),
            None => None,
        }
    }

    /// The form fields, once they have been computed.
    pub closed spec fn cached_form(&self) -> Option<Seq<(Seq<char>, Seq<char>)>> {
        match self.form {
            Some(d) => Some(d@),
            None => None,
        }
    }

    /// What `args` returns: the arguments computed earlier, else those of the
    /// URL's query.
    pub open spec fn spec_args(&self) -> Seq<(Seq<char>, Seq<char>)> {
        match self.cached_args() {
            Some(a) => a,
            None => query_args(self.spec_url()),
        }
    }

    /// What `form` returns: the fields computed earlier, else those of the
    /// body.
    pub open spec fn spec_form(&self) -> Seq<(Seq<char>, Seq<char>)> {
        match self.cached_form() {
            Some(f) => f,
            None => form_fields(&self.raw()),
        }
    }

    /// The value of the `Host` header.
    pub open spec fn spec_host(&self) -> Option<Seq<char>> {
        self.raw().headers.spec_get("Host"@)
    }

    /// The path of the URL, percent-decoded.
    pub open spec fn spec_path(&self) -> Option<Seq<char>> {
        match self.spec_url() {
            Some((path, _)) => Some(percent_decoded(path)),
            None => None,
        }
    }

    /// The query of the URL, as it is written there.
    pub open spec fn spec_query_string(&self) -> Option<Seq<char>> {
        match self.spec_url() {
            Some((_, query)) => query,
            None => None,
        }
    }

    /// The path with the query behind it.
    pub open spec fn spec_full_path(&self) -> Option<Seq<char>> {
        path_with_query(self.spec_path(), self.spec_query_string())
    }

    /// The scheme of every request.
    pub open spec fn spec_scheme(&self) -> Seq<char> {
        "http"@
    }

    /// The root URL of the host.
    pub open spec fn spec_host_url(&self) -> Option<Seq<char>> {
        match self.spec_host() {
            Some(host) => Some(root_url(self.spec_scheme(), host)),
            None => None,
        }
    }

    /// The URL of the request, query included.
    pub open spec fn spec_full_url(&self) -> Option<Seq<char>> {
        url_under(self.spec_host_url(), self.spec_full_path())
    }

    /// The URL of the request without its query.
    pub open spec fn spec_base_url(&self) -> Option<Seq<char>> {
        url_under(self.spec_host_url(), self.spec_path())
    }

    /// Wraps a raw request whose URL has already been parsed, or could not
    /// be. Nothing is computed yet.
    pub fn with_url(request: RawRequest, url: Option<UrlParts>) -> (r: Request)
        ensures
            r.raw() == request,
            r.spec_url() == opt_parts_view(url),
            r.cached_args() is None,
            r.cached_form() is None,
    {
        Request { request, url, args: None, form: None }
    }

    /// Create a `Request`. The URL is parsed from the scheme `http`, the
    /// `Host` header and the target; without a host or a path target, or
    /// where that text is no URL, the request has no URL.
    pub fn new(request: RawRequest) -> (r: Request)
        ensures
            r.raw() == request,
            r.spec_url() == match url_text(&request) {
                Some(text) => parsed_url(text),
                None => None,
            },
            r.cached_args() is None,
            r.cached_form() is None,
    {
        let url = match absolute_url(&request) {
            Some(text) => parse_url(text.as_str()),
            None => None,
        };
        Request::with_url(request, url)
    }

    /// The parsed URL parameters. They are computed at the first call and
    /// kept; later calls return what was kept.
    pub fn args(&mut self) -> (r: &MultiDict)
        ensures
            r@ == old(self).spec_args(),
            final(self).cached_args() == Some(old(self).spec_args()),
            final(self).cached_form() == old(self).cached_form(),
            final(self).spec_url() == old(self).spec_url(),
            final(self).raw() == old(self).raw(),
    {
        if self.args.is_none() {
            let pairs = match &self.url {
                Some(url) => match &url.query {
                    Some(query) => parse_urlencoded(query.as_str().as_bytes()),
                    None => Vec::new(),
                },
                None => Vec::new(),
            };
            assert(pair_views(pairs@) =~= query_args(self.spec_url()));
            self.args = Some(MultiDict::from_pairs(pairs));
        }
        self.args.as_ref().unwrap()
    }

    /// This method is used internally to retrieve submitted data.
    fn load_form_data(&mut self)
        ensures
            final(self).cached_form() == Some(old(self).spec_form()),
            final(self).cached_args() == old(self).cached_args(),
            final(self).spec_url() == old(self).spec_url(),
            final(self).raw() == old(self).raw(),
    {
        if self.form.is_some() {
            return ;
        }
        let is_form = match self.request.headers.get("Content-Type") {
            Some(content_type) => names_form_data(content_type.as_str()),
            None => false,
        };
        let pairs = if is_form {
            parse_urlencoded(self.request.body.as_slice())
        } else {
            Vec::new()
        };
        assert(pair_views(pairs@) =~= form_fields(&self.request));
        self.form = Some(MultiDict::from_pairs(pairs));
    }

    /// The form parameters. They are computed at the first call and kept;
    /// later calls return what was kept.
    pub fn form(&mut self) -> (r: &MultiDict)
        ensures
            r@ == old(self).spec_form(),
            final(self).cached_form() == Some(old(self).spec_form()),
            final(self).cached_args() == old(self).cached_args(),
            final(self).spec_url() == old(self).spec_url(),
            final(self).raw() == old(self).raw(),
    {
        self.load_form_data();
        self.form.as_ref().unwrap()
    }

    /// The headers.
    pub fn headers(&self) -> (r: &Headers)
        ensures
            *r == self.raw().headers,
    {
        &self.request.headers
    }

    /// Requested path, percent-decoded.
    pub fn path(&self) -> (r: Option<String>)
        ensures
            opt_view(r) == self.spec_path(),
    {
        match &self.url {
            Some(url) => Some(percent_decode(url.path.as_str())),
            None => None,
        }
    }

    /// Requested path including the query string.
    pub fn full_path(&self) -> (r: Option<String>)
        ensures
            opt_view(r) == self.spec_full_path(),
    {
        join_path_query(self.path(), self.query_string())
    }

    /// The host including the port if available.
    pub fn host(&self) -> (r: Option<String>)
        ensures
            opt_view(r) == self.spec_host(),
    {
        match self.request.headers.get("Host") {
            Some(host) => Some(host.clone()),
            None => None,
        }
    }

    /// The URL parameters as raw String.
    pub fn query_string(&self) -> (r: Option<String>)
        ensures
            opt_view(r) == self.spec_query_string(),
    {
        match &self.url {
            Some(url) => clone_opt(&url.query),
            None => None,
        }
    }

    /// The requested method.
    pub fn method(&self) -> (r: String)
        ensures
            r@ == self.raw().method@,
    {
        self.request.method.clone()
    }

    /// The remote address of the client.
    pub fn remote_addr(&self) -> (r: Option<String>)
        ensures
            r == self.raw().remote_addr,
    {
        clone_opt(&self.request.remote_addr)
    }

    /// URL scheme: always `http`, since this layer cannot tell a secured
    /// connection from a plain one.
    pub fn scheme(&self) -> (r: String)
        ensures
            r@ == self.spec_scheme(),
    {
        String::from_str("http")
    }

    /// Just the host with scheme.
    pub fn host_url(&self) -> (r: Option<String>)
        ensures
            opt_view(r) == self.spec_host_url(),
    {
        match self.host() {
            Some(host) => {
                let mut text = self.scheme();
                text.append("://");
                text.append(host.as_str());
                text.append("/");
                Some(text)
            },
            None => None,
        }
    }

    /// The current url.
    pub fn url(&self) -> (r: Option<String>)
        ensures
            opt_view(r) == self.spec_full_url(),
    {
        join_url(self.host_url(), self.full_path())
    }

    /// The current url without the query string.
    pub fn base_url(&self) -> (r: Option<String>)
        ensures
            opt_view(r) == self.spec_base_url(),
    {
        join_url(self.host_url(), self.path())
    }

    /// Whether the request is secure (https): never, as the scheme is fixed.
    pub fn is_secure(&self) -> (r: bool)
        ensures
            r == (self.spec_scheme() == "https"@),
            !r,
    {
        proof {
            reveal_strlit("http");
            reveal_strlit("https");
            assert("http"@.len() != "https"@.len());
        }
        let scheme = self.scheme();
        str_eq(scheme.as_str(), "https")
    }
}

/// Arguments that were computed stay what they are, whatever becomes of the
/// raw request or of the URL; and a call of `args` on a request leaves it in
/// a state in which a second call returns the same arguments.
pub proof fn lemma_args_computed_once(before: Request, after: Request)
    requires
        after.cached_args() == Some(before.spec_args()),
    ensures
        after.spec_args() == before.spec_args(),
        after.cached_args() == Some(after.spec_args()),
{
}

/// Form fields that were computed stay what they are, whatever becomes of
/// the raw request.
pub proof fn lemma_form_computed_once(before: Request, after: Request)
    requires
        after.cached_form() == Some(before.spec_form()),
    ensures
        after.spec_form() == before.spec_form(),
        after.cached_form() == Some(after.spec_form()),
{
}

/// A request whose content type does not announce URL-encoded form data, or
/// that has none, has no form fields.
pub proof fn lemma_form_needs_form_type(request: Request)
    requires
        request.cached_form() is None,
        match request.raw().headers.spec_get("Content-Type"@) {
            Some(value) => !is_form_content_type(value),
            None => true,
        },
    ensures
        request.spec_form() == Seq::<(Seq<char>, Seq<char>)>::empty(),
{
}

/// Without a `Host` header a request has no host, no root URL, no URL and
/// no base URL.
pub proof fn lemma_missing_host(request: Request)
    requires
        request.raw().headers.spec_get("Host"@) is None,
    ensures
        request.spec_host() is None,
        request.spec_host_url() is None,
        request.spec_full_url() is None,
        request.spec_base_url() is None,
{
}

/// The content type that a response starts with.
pub open spec fn default_content_type() -> Seq<char> {
    "text/html; charset=utf-8"@
}

/// The names `Content-Type` and `Content-Length` differ, also up to case.
pub proof fn lemma_type_and_length_differ()
    ensures
        folded("Content-Type"@) != folded("Content-Length"@),
{
    reveal_strlit("Content-Type");
    reveal_strlit("Content-Length");
    assert(folded("Content-Type"@).len() != folded(
        "Content-Length"@,
    ).len());
}

/// Response type.  It is just one container with a couple of parameters
/// (headers, body, status code etc).
#[derive(Clone, Debug)]
pub struct Response {
    pub status_code: isize,
    pub headers: Headers,
    pub body: String,
}

impl Response {
    /// The value of the `Content-Type` header.
    pub open spec fn spec_content_type(&self) -> Option<Seq<char>> {
        self.headers.spec_get("Content-Type"@)
    }

    /// The number that the `Content-Length` header holds.
    pub open spec fn spec_content_length(&self) -> Option<usize> {
        match self.headers.spec_get("Content-Length"@) {
            Some(text) => parse_number_spec(text),
            None => None,
        }
    }

    /// The `Content-Length` header holds the byte length of the body.
    pub open spec fn length_in_step(&self) -> bool {
        self.headers.spec_get("Content-Length"@) == Some(
            decimal(byte_len(self.body@)),
        )
    }

    /// Create a `Response` with status 200, the default content type and the
    /// length of `body`.
    pub fn new(body: String) -> (r: Response)
        ensures
            r.status_code == 200,
            r.body == body,
            r.headers.wf(),
            r.headers@ == with_header(
                with_header(Seq::empty(), "Content-Type"@, default_content_type()),
                "Content-Length"@,
                decimal(byte_len(body@)),
            ),
            r.spec_content_type() == Some(default_content_type()),
            r.length_in_step(),
            r.spec_content_length() == Some(byte_len(body@) as usize),
            byte_len(body@) <= usize::MAX,
    {
        let mut response = Response { status_code: 200, headers: Headers::new(None), body };
        let content_length = format_number(response.body.as_str().as_bytes().len());
        response.headers.set("Content-Type", "text/html; charset=utf-8");
        let ghost typed = response.headers@;
        response.headers.set("Content-Length", content_length.as_str());
        proof {
            lemma_type_and_length_differ();
            lemma_set_then_get(
                typed,
                "Content-Length"@,
                content_length@,
                "Content-Type"@,
            );
            lemma_decimal_round_trip(byte_len(body@));
        }
        response
    }

    /// Get status name: the reason phrase of the status code, or `UNKNOWN`
    /// for a code that has none.
    pub fn status_name(&self) -> (r: &'static str)
        ensures
            r@ == status_text(self.status_code as int),
    {
        match get_name_by_http_code(self.status_code) {
            Some(name) => name,
            None => "UNKNOWN",
        }
    }

    /// Sets a new string as response body.  The content length is set
    /// in the same step; status and content type stay.
    pub fn set_data(&mut self, value: String)
        requires
            old(self).headers.wf(),
        ensures
            final(self).body == value,
            final(self).status_code == old(self).status_code,
            final(self).headers.wf(),
            final(self).headers@ == with_header(
                old(self).headers@,
                "Content-Length"@,
                decimal(byte_len(value@)),
            ),
            final(self).spec_content_type() == old(self).spec_content_type(),
            final(self).length_in_step(),
            final(self).spec_content_length() == Some(byte_len(value@) as usize),
            byte_len(value@) <= usize::MAX,
    {
        self.body = value;
        let content_length = format_number(self.body.as_str().as_bytes().len());
        self.headers.set("Content-Length", content_length.as_str());
        proof {
            lemma_type_and_length_differ();
            lemma_set_then_get(
                old(self).headers@,
                "Content-Length"@,
                content_length@,
                "Content-Type"@,
            );
            lemma_decimal_round_trip(byte_len(value@));
        }
    }

    /// Returns the response content type if available.
    pub fn content_type(&self) -> (r: Option<String>)
        ensures
            opt_view(r) == self.spec_content_type(),
    {
        match self.headers.get("Content-Type") {
            Some(content_type) => Some(content_type.clone()),
            None => None,
        }
    }

    /// Set response content type: `value` with the charset `utf-8`
    /// attached. Status, body and the other headers stay.
    pub fn set_content_type(&mut self, value: &str)
        requires
            old(self).headers.wf(),
        ensures
            final(self).body == old(self).body,
            final(self).status_code == old(self).status_code,
            final(self).headers.wf(),
            final(self).headers@ == with_header(
                old(self).headers@,
                "Content-Type"@,
                content_type_text(value@, "utf-8"@),
            ),
            final(self).spec_content_type() == Some(content_type_text(value@, "utf-8"@)),
            final(self).spec_content_length() == old(self).spec_content_length(),
    {
        let text = get_content_type(value, "utf-8");
        self.headers.set("Content-Type", text.as_str());
        proof {
            lemma_type_and_length_differ();
            lemma_set_then_get(
                old(self).headers@,
                "Content-Type"@,
                text@,
                "Content-Length"@,
            );
        }
    }

    /// Returns the response content length if available: the number that
    /// the header holds, or `None` where there is no header or its text is
    /// no number.
    pub fn content_length(&self) -> (r: Option<usize>)
        ensures
            r == self.spec_content_length(),
    {
        match self.headers.get("Content-Length") {
            Some(content_length) => parse_number(content_length.as_str()),
            None => None,
        }
    }

    /// Set content length. The body is not looked at: after a change of the
    /// body through anything but `set_data` the two may disagree.
    pub fn set_content_length(&mut self, value: usize)
        requires
            old(self).headers.wf(),
        ensures
            final(self).body == old(self).body,
            final(self).status_code == old(self).status_code,
            final(self).headers.wf(),
            final(self).headers@ == with_header(
                old(self).headers@,
                "Content-Length"@,
                decimal(value as nat),
            ),
            final(self).spec_content_length() == Some(value),
            final(self).spec_content_type() == old(self).spec_content_type(),
    {
        let text = format_number(value);
        self.headers.set("Content-Length", text.as_str());
        proof {
            lemma_type_and_length_differ();
            lemma_set_then_get(
                old(self).headers@,
                "Content-Length"@,
                text@,
                "Content-Type"@,
            );
            lemma_decimal_round_trip(value as nat);
        }
    }
}

} // verus!
