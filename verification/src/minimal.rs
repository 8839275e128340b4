//! A minimal, self-contained request/response frontend: a tolerant
//! request-line parser with defaults, simple header collection, and a
//! fixed-shape response rendering.  It shares the association map and the
//! decimal rendering with the main decoder but keeps its own wire types.

pub mod parts;

use vstd::prelude::*;

use crate::decimal::spec_digits;
use crate::decimal::render_u64;
use crate::response::byte_len;
use crate::strmap::StringMap;
use crate::strmap::bind;
use crate::strmap::bind_all;
use crate::strmap::has_key;
use crate::strmap::lemma_bind_viewed;
use crate::strmap::lemma_key_index_viewed;
use crate::strmap::unbind;
use crate::strmap::viewed_pairs;
use crate::text::spec_split;
use crate::text::split_str;
use crate::text::views_of;
use parts::HttpMethod;
use parts::InvalidMethod;
use parts::StatusCode;

verus! {

/// Whether `c` separates request-line tokens.
pub open spec fn is_ws(c: char) -> bool {
    c == ' ' || c == '\t'
}

/// The first position at or after `i` holding no token separator, or the
/// length of `l`.
pub open spec fn ws_end(l: Seq<char>, i: int) -> int
    decreases l.len() - i,
{
    if i < 0 || i >= l.len() {
        l.len() as int
    } else if is_ws(l[i]) {
        ws_end(l, i + 1)
    } else {
        i
    }
}

/// The first position at or after `i` holding a token separator, or the
/// length of `l`.
pub open spec fn tok_end(l: Seq<char>, i: int) -> int
    decreases l.len() - i,
{
    if i < 0 || i >= l.len() {
        l.len() as int
    } else if is_ws(l[i]) {
        i
    } else {
        tok_end(l, i + 1)
    }
}

/// The first three whitespace-separated tokens of a request line, with
/// the defaults `GET`, `/` and `HTTP/1.1` for the missing ones.
pub open spec fn spec_line_tokens(l: Seq<char>) -> (Seq<char>, Seq<char>, Seq<char>) {
    let b0 = ws_end(l, 0);
    let e0 = tok_end(l, b0);
    let b1 = ws_end(l, e0);
    let e1 = tok_end(l, b1);
    let b2 = ws_end(l, e1);
    let e2 = tok_end(l, b2);
    let m = if b0 < l.len() {
        l.subrange(b0, e0)
    } else {
        "GET"@
    };
    let p = if b1 < l.len() {
        l.subrange(b1, e1)
    } else {
        "/"@
    };
    let v = if b2 < l.len() {
        l.subrange(b2, e2)
    } else {
        "HTTP/1.1"@
    };
    (m, p, v)
}

/// `l` with one trailing carriage return removed.
pub open spec fn strip_cr(l: Seq<char>) -> Seq<char> {
    if l.len() > 0 && l.last() == '\r' {
        l.drop_last()
    } else {
        l
    }
}

/// The first position at or after `i` where `:` is followed by a space,
/// or -1.
pub open spec fn colon_space_index(l: Seq<char>, i: int) -> int
    decreases l.len() - i,
{
    if i < 0 || i >= l.len() {
        -1
    } else if l[i] == ':' && i + 1 < l.len() && l[i + 1] == ' ' {
        i
    } else {
        colon_space_index(l, i + 1)
    }
}

/// The header pairs the given lines carry, in order: each line split at
/// its first `: `, lines without one ignored.
pub open spec fn spec_min_headers(ls: Seq<Seq<char>>) -> Seq<(Seq<char>, Seq<char>)>
    decreases ls.len(),
{
    if ls.len() == 0 {
        Seq::empty()
    } else {
        let pre = spec_min_headers(ls.drop_last());
        let l = strip_cr(ls.last());
        let j = colon_space_index(l, 0);
        if j < 0 {
            pre
        } else {
            pre.push((l.take(j), l.skip(j + 2)))
        }
    }
}

/// A simple request: the request line fields, the headers, and a typed
/// body filled in by the application.
#[derive(Debug)]
pub struct Request<T> {
    headers: StringMap<String>,
    cookies: StringMap<String>,
    body: Option<T>,
    method: HttpMethod,
    version: String,
    uri: String,
}

/// The mathematical value of a [`Request`].
#[verifier::ext_equal]
pub ghost struct SpecMinRequest<T> {
    pub method: HttpMethod,
    pub version: Seq<char>,
    pub uri: Seq<char>,
    pub headers: Seq<(Seq<char>, Seq<char>)>,
    pub cookies: Seq<(Seq<char>, Seq<char>)>,
    pub body: Option<T>,
}

impl<T> View for Request<T> {
    type V = SpecMinRequest<T>;

    closed spec fn view(&self) -> SpecMinRequest<T> {
        SpecMinRequest {
            method: self.method,
            version: self.version@,
            uri: self.uri@,
            headers: viewed_pairs(self.headers@),
            cookies: viewed_pairs(self.cookies@),
            body: self.body,
        }
    }
}

/// What parsing a raw request yields here: the first line's tokens with
/// their defaults (an unknown method token is a recoverable error), the
/// remaining lines as headers bound in order, no cookies and no body.
pub open spec fn spec_min_request<T>(s: Seq<char>) -> Result<SpecMinRequest<T>, InvalidMethod> {
    let lines = spec_split(s, '\n');
    let (m, p, v) = spec_line_tokens(strip_cr(lines[0]));
    match HttpMethod::spec_from_str(m) {
        Err(e) => Err(e),
        Ok(method) => Ok(
            SpecMinRequest {
                method,
                version: v,
                uri: p,
                headers: bind_all(spec_min_headers(lines.drop_first())),
                cookies: Seq::empty(),
                body: None,
            },
        ),
    }
}

/// The view of a parse result.
pub open spec fn min_request_result_view<T>(r: Result<Request<T>, InvalidMethod>) -> Result<
    SpecMinRequest<T>,
    InvalidMethod,
> {
    match r {
        Ok(rq) => Ok(rq@),
        Err(e) => Err(e),
    }
}

/// The first position at or after `from` holding no token separator.
fn ws_end_exec(l: &str, from: usize) -> (r: usize)
    requires
        from <= l@.len(),
    ensures
        r == ws_end(l@, from as int),
        from <= r <= l@.len(),
{
    let n = l.unicode_len();
    let mut i = from;
    while i < n
        invariant
            from <= i <= n == l@.len(),
            ws_end(l@, from as int) == ws_end(l@, i as int),
        decreases n - i,
    {
        let c = l.get_char(i);
        if !(c == ' ' || c == '\t') {
            return i;
        }
        i = i + 1;
    }
    i
}

/// The first position at or after `from` holding a token separator.
fn tok_end_exec(l: &str, from: usize) -> (r: usize)
    requires
        from <= l@.len(),
    ensures
        r == tok_end(l@, from as int),
        from <= r <= l@.len(),
{
    let n = l.unicode_len();
    let mut i = from;
    while i < n
        invariant
            from <= i <= n == l@.len(),
            tok_end(l@, from as int) == tok_end(l@, i as int),
        decreases n - i,
    {
        let c = l.get_char(i);
        if c == ' ' || c == '\t' {
            return i;
        }
        i = i + 1;
    }
    i
}

/// Removes one trailing carriage return.
fn strip_cr_exec(l: &str) -> (r: String)
    ensures
        r@ == strip_cr(l@),
{
    let n = l.unicode_len();
    if n > 0 && l.get_char(n - 1) == '\r' {
        let r = l.substring_char(0, n - 1).to_owned();
        proof {
            assert(l@.subrange(0, n - 1) =~= l@.drop_last());
        }
        r
    } else {
        l.to_owned()
    }
}

/// The first position at or after `from` where `: ` begins, if any.
fn find_colon_space(l: &str, from: usize) -> (r: Option<usize>)
    requires
        from <= l@.len(),
    ensures
        match r {
            Some(j) => j == colon_space_index(l@, from as int) && from <= j && j + 1 < l@.len(),
            None => colon_space_index(l@, from as int) == -1,
        },
{
    let n = l.unicode_len();
    let mut i = from;
    while i < n
        invariant
            from <= i <= n == l@.len(),
            colon_space_index(l@, from as int) == colon_space_index(l@, i as int),
        decreases n - i,
    {
        if l.get_char(i) == ':' && i + 1 < n && l.get_char(i + 1) == ' ' {
            return Some(i);
        }
        i = i + 1;
    }
    None
}

impl<T> Request<T> {
    /// Parses a raw request per [`spec_min_request`]; only an unknown
    /// method token is an error, every other shortfall has a default.
    #[verifier::loop_isolation(false)]
    pub fn new(req: String) -> (r: Result<Self, InvalidMethod>)
        ensures
            min_request_result_view(r) == spec_min_request::<T>(req@),
    {
        proof {
            crate::text::lemma_split_nonempty(req@, '\n');
        }
        let parts = split_str(req.as_str(), '\n');
        let line0 = strip_cr_exec(parts[0].as_str());
        let ln = line0.unicode_len();
        let b0 = ws_end_exec(line0.as_str(), 0);
        let method_tok: String = if b0 < ln {
            let e0 = tok_end_exec(line0.as_str(), b0);
            line0.as_str().substring_char(b0, e0).to_owned()
        } else {
            "GET".to_owned()
        };
        let method = match HttpMethod::from_str(method_tok.as_str()) {
            Ok(m) => m,
            Err(e) => {
                return Err(e);
            },
        };
        let e0 = tok_end_exec(line0.as_str(), b0);
        let b1 = ws_end_exec(line0.as_str(), e0);
        let path: String = if b1 < ln {
            let e1 = tok_end_exec(line0.as_str(), b1);
            line0.as_str().substring_char(b1, e1).to_owned()
        } else {
            "/".to_owned()
        };
        let e1 = tok_end_exec(line0.as_str(), b1);
        let b2 = ws_end_exec(line0.as_str(), e1);
        let version: String = if b2 < ln {
            let e2 = tok_end_exec(line0.as_str(), b2);
            line0.as_str().substring_char(b2, e2).to_owned()
        } else {
            "HTTP/1.1".to_owned()
        };
        let mut headers: StringMap<String> = StringMap::new();
        let ghost all_lines = views_of(parts@).drop_first();
        let m = parts.len();
        let mut i: usize = 1;
        while i < m
            invariant
                1 <= i <= m == parts@.len(),
                viewed_pairs(headers@) == bind_all(
                    spec_min_headers(all_lines.take(i - 1 as int)),
                ),
            decreases m - i,
        {
            proof {
                assert(all_lines.take(i as int).drop_last() =~= all_lines.take(i - 1 as int));
                assert(all_lines[i - 1 as int] == views_of(parts@)[i as int]);
                assert(all_lines.take(i as int).last() == parts@[i as int]@);
            }
            let line = strip_cr_exec(parts[i].as_str());
            let lln = line.unicode_len();
            match find_colon_space(line.as_str(), 0) {
                Some(j) => {
                    let key = line.as_str().substring_char(0, j).to_owned();
                    let value = line.as_str().substring_char(j + 2, lln).to_owned();
                    let ghost gk = key;
                    let ghost gv = value;
                    let ghost hs = headers@;
                    let ghost pairs = spec_min_headers(all_lines.take(i - 1 as int));
                    headers.insert(key, value);
                    proof {
                        lemma_bind_viewed(hs, gk@, gv);
                        assert(gk@ =~= strip_cr(all_lines[i - 1 as int]).take(j as int));
                        assert(gv@ =~= strip_cr(all_lines[i - 1 as int]).skip(j + 2));
                        assert(pairs.push((gk@, gv@)).drop_last() =~= pairs);
                        assert(spec_min_headers(all_lines.take(i as int)) =~= pairs.push(
                            (gk@, gv@),
                        ));
                    }
                },
                None => {
                    proof {
                        assert(spec_min_headers(all_lines.take(i as int))
                            =~= spec_min_headers(all_lines.take(i - 1 as int)));
                    }
                },
            }
            i = i + 1;
        }
        proof {
            assert(all_lines.take(m - 1 as int) =~= all_lines);
        }
        let rq = Request {
            headers,
            cookies: StringMap::new(),
            body: None,
            method,
            version,
            uri: path,
        };
        proof {
            assert(rq@ =~~= spec_min_request::<T>(req@)->Ok_0);
        }
        Ok(rq)
    }


    /// The request-line-and-headers text of the request: method, path and
    /// version separated by spaces, then each header on its own line, then
    /// a blank line.
    #[verifier::loop_isolation(false)]
    pub fn to_string(&self) -> (r: String)
        ensures
            r@ == self@.method.spec_str() + " "@ + self@.uri + " "@ + self@.version + header_cat(
                self@.headers,
            ) + "\r\n\r\n"@,
    {
        let mut out = self.method.to_string();
        out.append(" ");
        out.append(self.uri.as_str());
        out.append(" ");
        out.append(self.version.as_str());
        let hn = self.headers.len();
        let mut i: usize = 0;
        let mut header_text = String::new();
        while i < hn
            invariant
                0 <= i <= hn,
                header_text@ == header_cat(self@.headers.take(i as int)),
            decreases hn - i,
        {
            let (k, v) = self.headers.pair_at(i);
            header_text.append("\r\n");
            header_text.append(k.as_str());
            header_text.append(": ");
            header_text.append(v.as_str());
            proof {
                assert(self@.headers.take(i + 1 as int).drop_last() =~= self@.headers.take(
                    i as int,
                ));
                assert(header_text@ =~= header_cat(self@.headers.take(i + 1 as int)));
            }
            i = i + 1;
        }
        proof {
            assert(self@.headers.take(hn as int) =~= self@.headers);
        }
        out.append(header_text.as_str());
        out.append("\r\n\r\n");
        out
    }

    /// A request assembled from already-parsed parts.
    pub fn new_from_part(
        method: HttpMethod,
        version: String,
        uri: String,
        headers: StringMap<String>,
        cookies: StringMap<String>,
        body: Option<T>,
    ) -> (r: Self)
        ensures
            r@ == (SpecMinRequest {
                method,
                version: version@,
                uri: uri@,
                headers: viewed_pairs(headers@),
                cookies: viewed_pairs(cookies@),
                body: body,
            }),
    {
        Request { headers, cookies, body, method, version, uri }
    }
}

/// The header lines a request or response renders: `\r\n` then
/// `name: value`, for each pair in order.
pub open spec fn header_cat(pairs: Seq<(Seq<char>, Seq<char>)>) -> Seq<char>
    decreases pairs.len(),
{
    if pairs.len() == 0 {
        Seq::empty()
    } else {
        header_cat(pairs.drop_last()) + "\r\n"@ + pairs.last().0 + ": "@ + pairs.last().1
    }
}

/// The cookie text a response renders: `name=value;` for each pair in
/// order.
pub open spec fn cookie_cat(pairs: Seq<(Seq<char>, Seq<char>)>) -> Seq<char>
    decreases pairs.len(),
{
    if pairs.len() == 0 {
        Seq::empty()
    } else {
        cookie_cat(pairs.drop_last()) + pairs.last().0 + "="@ + pairs.last().1 + ";"@
    }
}

/// A simple response: status, headers, cookies, body, and an optional
/// content type (rendered as `text/html` when absent).
pub struct Response {
    headers: StringMap<String>,
    cookies: StringMap<String>,
    body: String,
    status_code: StatusCode,
    content_type: Option<String>,
}

/// The mathematical value of a [`Response`].
#[verifier::ext_equal]
pub ghost struct SpecMinResponse {
    pub headers: Seq<(Seq<char>, Seq<char>)>,
    pub cookies: Seq<(Seq<char>, Seq<char>)>,
    pub body: Seq<char>,
    pub status_code: StatusCode,
    pub content_type: Option<Seq<char>>,
}

impl View for Response {
    type V = SpecMinResponse;

    closed spec fn view(&self) -> SpecMinResponse {
        SpecMinResponse {
            headers: viewed_pairs(self.headers@),
            cookies: viewed_pairs(self.cookies@),
            body: self.body@,
            status_code: self.status_code,
            content_type: match self.content_type {
                Some(c) => Some(c@),
                None => None,
            },
        }
    }
}

/// The full wire text of a simple response, for the given protocol
/// version text and `Date` header text.
pub open spec fn spec_wire(version: Seq<char>, date: Seq<char>, r: SpecMinResponse) -> Seq<char> {
    let ct = match r.content_type {
        Some(c) => c,
        None => "text/html"@,
    };
    version + " "@ + r.status_code.spec_str() + "\r\nContent-Type: "@ + ct + "\r\nDate: "@ + date
        + "\r\nConnection: Keep-Alive\r\nAge: 0\r\nContent-Length: "@ + spec_digits(
        byte_len(r.body) as nat,
    ) + "\r\nSet-Cookie:"@ + cookie_cat(r.cookies) + header_cat(r.headers) + "\r\n\r\n"@ + r.body
}

/// Relies on `chrono::Utc::now` and `DateTime::to_rfc2822` for the text
/// of the `Date` header; the result depends on the clock.
#[verifier::external_body]
fn now_rfc2822() -> String {
    chrono::Utc::now().to_rfc2822()
}

impl Response {
    /// An empty response: status 200, no headers, no cookies, empty body,
    /// no content type.
    pub fn new() -> (r: Self)
        ensures
            r@ == (SpecMinResponse {
                headers: Seq::empty(),
                cookies: Seq::empty(),
                body: Seq::empty(),
                status_code: StatusCode::OK,
                content_type: None,
            }),
    {
        let r = Response {
            headers: StringMap::new(),
            cookies: StringMap::new(),
            body: String::new(),
            status_code: StatusCode::OK,
            content_type: None,
        };
        proof {
            assert(r@ =~~= (SpecMinResponse {
                headers: Seq::empty(),
                cookies: Seq::empty(),
                body: Seq::empty(),
                status_code: StatusCode::OK,
                content_type: None,
            }));
        }
        r
    }

    /// Replaces the status.
    pub fn set_status(self, status: StatusCode) -> (r: Self)
        ensures
            r@ == (SpecMinResponse { status_code: status, ..self@ }),
    {
        let Response { headers, cookies, body, status_code: _, content_type } = self;
        Response { headers, cookies, body, status_code: status, content_type }
    }

    /// Binds one header, overwriting an earlier value under the same name.
    pub fn set_header(self, k: String, v: String) -> (r: Self)
        ensures
            r@ == (SpecMinResponse { headers: bind(self@.headers, k@, v@), ..self@ }),
    {
        let Response { mut headers, cookies, body, status_code, content_type } = self;
        let ghost hs = headers@;
        let ghost gk = k;
        let ghost gv = v;
        headers.insert(k, v);
        proof {
            lemma_bind_viewed(hs, gk@, gv);
        }
        Response { headers, cookies, body, status_code, content_type }
    }

    /// Whether a header with that name is bound.
    pub fn has_header(self, k: String) -> (r: bool)
        ensures
            r == has_key(self@.headers, k@),
    {
        proof {
            lemma_key_index_viewed(self.headers@, k@);
        }
        self.headers.contains_key(k.as_str())
    }

    /// Removes the header with that name, if bound.
    pub fn remove_header(self, k: String) -> (r: Self)
        ensures
            r@ == (SpecMinResponse { headers: unbind(self@.headers, k@), ..self@ }),
    {
        let Response { mut headers, cookies, body, status_code, content_type } = self;
        let ghost hs = headers@;
        headers.remove(k.as_str());
        proof {
            lemma_key_index_viewed(hs, k@);
            crate::strmap::lemma_key_index(hs, k@);
            assert(viewed_pairs(unbind(hs, k@)) =~= unbind(viewed_pairs(hs), k@));
        }
        Response { headers, cookies, body, status_code, content_type }
    }

    /// Binds one cookie, overwriting an earlier value under the same name.
    pub fn set_cookie(self, k: String, v: String) -> (r: Self)
        ensures
            r@ == (SpecMinResponse { cookies: bind(self@.cookies, k@, v@), ..self@ }),
    {
        let Response { headers, mut cookies, body, status_code, content_type } = self;
        let ghost cs = cookies@;
        let ghost gk = k;
        let ghost gv = v;
        cookies.insert(k, v);
        proof {
            lemma_bind_viewed(cs, gk@, gv);
        }
        Response { headers, cookies, body, status_code, content_type }
    }

    /// Whether a cookie with that name is bound.
    pub fn has_cookie(self, k: String) -> (r: bool)
        ensures
            r == has_key(self@.cookies, k@),
    {
        proof {
            lemma_key_index_viewed(self.cookies@, k@);
        }
        self.cookies.contains_key(k.as_str())
    }

    /// Removes the cookie with that name, if bound.
    pub fn remove_cookie(self, k: String) -> (r: Self)
        ensures
            r@ == (SpecMinResponse { cookies: unbind(self@.cookies, k@), ..self@ }),
    {
        let Response { headers, mut cookies, body, status_code, content_type } = self;
        let ghost cs = cookies@;
        cookies.remove(k.as_str());
        proof {
            lemma_key_index_viewed(cs, k@);
            crate::strmap::lemma_key_index(cs, k@);
            assert(viewed_pairs(unbind(cs, k@)) =~= unbind(viewed_pairs(cs), k@));
        }
        Response { headers, cookies, body, status_code, content_type }
    }

    /// Replaces the body.
    pub fn set_body(self, k: String) -> (r: Self)
        ensures
            r@ == (SpecMinResponse { body: k@, ..self@ }),
    {
        let Response { headers, cookies, body: _, status_code, content_type } = self;
        Response { headers, cookies, body: k, status_code, content_type }
    }

    /// The body's byte length, as rendered into `Content-Length`.
    pub fn content_length(&self) -> (r: usize)
        ensures
            r == byte_len(self@.body),
    {
        self.body.as_str().len()
    }

    /// The full wire text, per [`spec_wire`], for the given protocol
    /// version and `Date` header text.
    #[verifier::loop_isolation(false)]
    pub fn to_wire(&self, version: &str, date: &str) -> (r: String)
        ensures
            r@ == spec_wire(version@, date@, self@),
    {
        let mut out = version.to_owned();
        out.append(" ");
        let status = self.status_code.to_string();
        out.append(status.as_str());
        out.append("\r\nContent-Type: ");
        match &self.content_type {
            Some(c) => out.append(c.as_str()),
            None => out.append("text/html"),
        }
        out.append("\r\nDate: ");
        out.append(date);
        out.append("\r\nConnection: Keep-Alive\r\nAge: 0\r\nContent-Length: ");
        let length = render_u64(self.body.as_str().len() as u64);
        out.append(length.as_str());
        out.append("\r\nSet-Cookie:");
        let cn = self.cookies.len();
        let mut j: usize = 0;
        let mut cookie_text = String::new();
        while j < cn
            invariant
                0 <= j <= cn,
                cookie_text@ == cookie_cat(self@.cookies.take(j as int)),
            decreases cn - j,
        {
            let (k, v) = self.cookies.pair_at(j);
            cookie_text.append(k.as_str());
            cookie_text.append("=");
            cookie_text.append(v.as_str());
            cookie_text.append(";");
            proof {
                assert(self@.cookies.take(j + 1 as int).drop_last() =~= self@.cookies.take(
                    j as int,
                ));
                assert(cookie_text@ =~= cookie_cat(self@.cookies.take(j + 1 as int)));
            }
            j = j + 1;
        }
        proof {
            assert(self@.cookies.take(cn as int) =~= self@.cookies);
        }
        out.append(cookie_text.as_str());
        let hn = self.headers.len();
        let mut i: usize = 0;
        let mut header_text = String::new();
        while i < hn
            invariant
                0 <= i <= hn,
                header_text@ == header_cat(self@.headers.take(i as int)),
            decreases hn - i,
        {
            let (k, v) = self.headers.pair_at(i);
            header_text.append("\r\n");
            header_text.append(k.as_str());
            header_text.append(": ");
            header_text.append(v.as_str());
            proof {
                assert(self@.headers.take(i + 1 as int).drop_last() =~= self@.headers.take(
                    i as int,
                ));
                assert(header_text@ =~= header_cat(self@.headers.take(i + 1 as int)));
            }
            i = i + 1;
        }
        proof {
            assert(self@.headers.take(hn as int) =~= self@.headers);
        }
        out.append(header_text.as_str());
        out.append("\r\n\r\n");
        out.append(self.body.as_str());
        proof {
            assert(out@ =~= spec_wire(version@, date@, self@));
        }
        out
    }

    /// The full wire text with the `Date` header taken from the clock:
    /// [`spec_wire`] holds of it for some date text.
    pub fn to_wire_now(&self, version: &str) -> (r: String)
        ensures
            exists|d: Seq<char>| r@ == spec_wire(version@, d, self@),
    {
        let date = now_rfc2822();
        let r = self.to_wire(version, date.as_str());
        proof {
            assert(r@ == spec_wire(version@, date@, self@));
        }
        r
    }
}

} // verus!
