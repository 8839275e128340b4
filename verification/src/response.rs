//! Responses: the fluent builder and the wire-format rendering.
//!
//! A builder starts at status 200 with a single `Content-Length: 0` header.
//! Setting a plain body sets `Content-Type: text/plain` and recomputes
//! `Content-Length` from the body's byte length.  Building renders each
//! cookie to its value text; rendering the response emits the status line,
//! the headers in insertion order, a single `Set-Cookie` header when any
//! cookies exist, a blank line, and the body.

use vstd::prelude::*;

use crate::cookie::Cookie;
use crate::cookie::SpecCookie;
use crate::decimal::spec_digits;
use crate::decimal::render_u64;
use crate::status::HttpStatusCode;
use crate::strmap::StringMap;
use crate::strmap::bind;
use crate::strmap::key_index;
use crate::strmap::lemma_bind_viewed;
use crate::strmap::lemma_key_index_viewed;
use crate::strmap::value_of;
use crate::strmap::viewed_pairs;

verus! {

/// The byte length of a string's UTF-8 encoding, clipped to the machine's
/// address range as `str::len` reports it.
pub open spec fn byte_len(s: Seq<char>) -> usize {
    vstd::utf8::encode_utf8(s).len() as usize
}

/// The decimal text of a body's `Content-Length`.
pub open spec fn content_length_digits(s: Seq<char>) -> Seq<char> {
    spec_digits(byte_len(s) as nat)
}

/// The header lines of a rendered response: each pair as `name: value`,
/// joined by `\r\n`.
pub open spec fn spec_render_headers(pairs: Seq<(Seq<char>, Seq<char>)>) -> Seq<char>
    decreases pairs.len(),
{
    if pairs.len() == 0 {
        Seq::empty()
    } else if pairs.len() == 1 {
        pairs[0].0 + ": "@ + pairs[0].1
    } else {
        spec_render_headers(pairs.drop_last()) + "\r\n"@ + pairs.last().0 + ": "@ + pairs.last().1
    }
}

/// The value of a rendered `Set-Cookie` header: each pair as `name=value`,
/// joined by `; `.
pub open spec fn spec_render_cookies(pairs: Seq<(Seq<char>, Seq<char>)>) -> Seq<char>
    decreases pairs.len(),
{
    if pairs.len() == 0 {
        Seq::empty()
    } else if pairs.len() == 1 {
        pairs[0].0 + "="@ + pairs[0].1
    } else {
        spec_render_cookies(pairs.drop_last()) + "; "@ + pairs.last().0 + "="@ + pairs.last().1
    }
}

/// The full wire text of a response: the status line, the headers (with a
/// single `Set-Cookie` header appended when any cookies exist), a blank
/// line, and the body.
pub open spec fn spec_render(
    status: HttpStatusCode,
    headers: Seq<(Seq<char>, Seq<char>)>,
    cookies: Seq<(Seq<char>, Seq<char>)>,
    body: Seq<char>,
) -> Seq<char> {
    let header_block = if cookies.len() == 0 {
        spec_render_headers(headers)
    } else {
        spec_render_headers(headers.push(("Set-Cookie"@, spec_render_cookies(cookies))))
    };
    status.spec_reason() + "\r\n"@ + header_block + "\r\n\r\n"@ + body
}

/// A finished response, ready to render.
pub struct Response {
    status: HttpStatusCode,
    headers: StringMap<String>,
    cookies: StringMap<String>,
    body: String,
}

/// The mathematical value of a [`Response`].
#[verifier::ext_equal]
pub ghost struct SpecResponse {
    pub status: HttpStatusCode,
    pub headers: Seq<(Seq<char>, Seq<char>)>,
    pub cookies: Seq<(Seq<char>, Seq<char>)>,
    pub body: Seq<char>,
}

impl View for Response {
    type V = SpecResponse;

    closed spec fn view(&self) -> SpecResponse {
        SpecResponse {
            status: self.status,
            headers: viewed_pairs(self.headers@),
            cookies: viewed_pairs(self.cookies@),
            body: self.body@,
        }
    }
}

/// The mathematical value of a [`ReponseBuilder`]: the status, headers and
/// body it will build, and the cookies still in parsed form.
#[verifier::ext_equal]
pub ghost struct SpecBuilder {
    pub status: HttpStatusCode,
    pub headers: Seq<(Seq<char>, Seq<char>)>,
    pub cookies: Seq<(Seq<char>, SpecCookie)>,
    pub body: Seq<char>,
}

impl Response {
    /// A builder with status 200, the default `Content-Length: 0` header,
    /// no cookies, and an empty body.
    pub fn new() -> (r: ReponseBuilder)
        ensures
            r@ == (SpecBuilder {
                status: HttpStatusCode::OK,
                headers: seq![("Content-Length"@, "0"@)],
                cookies: Seq::empty(),
                body: Seq::empty(),
            }),
    {
        let mut headers: StringMap<String> = StringMap::new();
        let zero = "0".to_owned();
        let ghost gz = zero;
        headers.insert("Content-Length".to_owned(), zero);
        let r = ReponseBuilder {
            status: HttpStatusCode::OK,
            headers,
            cookies: StringMap::new(),
            body: String::new(),
        };
        proof {
            assert(r@.headers =~= seq![("Content-Length"@, "0"@)]);
            assert(r@.cookies =~= Seq::<(Seq<char>, SpecCookie)>::empty());
        }
        r
    }

    /// The wire text of the response, per [`spec_render`].
    #[verifier::loop_isolation(false)]
    pub fn to_string(&self) -> (r: String)
        ensures
            r@ == spec_render(self@.status, self@.headers, self@.cookies, self@.body),
    {
        let mut out = self.status.to_string();
        out.append("\r\n");
        let hn = self.headers.len();
        let mut i: usize = 0;
        let mut block = String::new();
        while i < hn
            invariant
                0 <= i <= hn,
                block@ == spec_render_headers(self@.headers.take(i as int)),
            decreases hn - i,
        {
            let (k, v) = self.headers.pair_at(i);
            if i > 0 {
                block.append("\r\n");
            }
            block.append(k.as_str());
            block.append(": ");
            block.append(v.as_str());
            proof {
                assert(self@.headers.take(i + 1 as int).drop_last() =~= self@.headers.take(
                    i as int,
                ));
                assert(block@ =~= spec_render_headers(self@.headers.take(i + 1 as int)));
            }
            i = i + 1;
        }
        proof {
            assert(self@.headers.take(hn as int) =~= self@.headers);
        }
        let cn = self.cookies.len();
        if cn > 0 {
            let mut cookie_text = String::new();
            let mut j: usize = 0;
            while j < cn
                invariant
                    0 <= j <= cn,
                    cookie_text@ == spec_render_cookies(self@.cookies.take(j as int)),
                decreases cn - j,
            {
                let (k, v) = self.cookies.pair_at(j);
                if j > 0 {
                    cookie_text.append("; ");
                }
                cookie_text.append(k.as_str());
                cookie_text.append("=");
                cookie_text.append(v.as_str());
                proof {
                    assert(self@.cookies.take(j + 1 as int).drop_last() =~= self@.cookies.take(
                        j as int,
                    ));
                    assert(cookie_text@ =~= spec_render_cookies(self@.cookies.take(j + 1 as int)));
                }
                j = j + 1;
            }
            proof {
                assert(self@.cookies.take(cn as int) =~= self@.cookies);
            }
            if hn > 0 {
                block.append("\r\n");
            }
            block.append("Set-Cookie");
            block.append(": ");
            block.append(cookie_text.as_str());
            proof {
                let pairs = self@.headers.push(("Set-Cookie"@, spec_render_cookies(self@.cookies)));
                assert(pairs.drop_last() =~= self@.headers);
                assert(block@ =~= spec_render_headers(pairs));
            }
        }
        out.append(block.as_str());
        out.append("\r\n\r\n");
        out.append(self.body.as_str());
        proof {
            assert(out@ =~= spec_render(self@.status, self@.headers, self@.cookies, self@.body));
        }
        out
    }
}

impl View for ReponseBuilder {
    type V = SpecBuilder;

    closed spec fn view(&self) -> SpecBuilder {
        SpecBuilder {
            status: self.status,
            headers: viewed_pairs(self.headers@),
            cookies: viewed_pairs(self.cookies@),
            body: self.body@,
        }
    }
}

/// A fluent builder for a [`Response`].
pub struct ReponseBuilder {
    status: HttpStatusCode,
    headers: StringMap<String>,
    cookies: StringMap<Cookie>,
    body: String,
}

/// The cookie pairs of a builder as they are rendered at build time: each
/// cookie becomes its value text.
pub open spec fn rendered_cookie_pairs(pairs: Seq<(Seq<char>, SpecCookie)>) -> Seq<
    (Seq<char>, Seq<char>),
> {
    pairs.map_values(|p: (Seq<char>, SpecCookie)| (p.0, p.1.value))
}

impl ReponseBuilder {
    /// Replaces the status.
    pub fn status(self, status: HttpStatusCode) -> (r: Self)
        ensures
            r@ == (SpecBuilder { status: status, ..self@ }),
    {
        let ReponseBuilder { status: _, headers, cookies, body } = self;
        ReponseBuilder { status, headers, cookies, body }
    }

    /// Replaces the whole header map.
    pub fn set_header(self, headers: StringMap<String>) -> (r: Self)
        ensures
            r@ == (SpecBuilder { headers: viewed_pairs(headers@), ..self@ }),
    {
        let ReponseBuilder { status, headers: _, cookies, body } = self;
        ReponseBuilder { status, headers, cookies, body }
    }

    /// Binds one header, overwriting an earlier value under the same name.
    pub fn header(self, k: &'static str, v: &'static str) -> (r: Self)
        ensures
            r@ == (SpecBuilder { headers: bind(self@.headers, k@, v@), ..self@ }),
    {
        let ReponseBuilder { status, mut headers, cookies, body } = self;
        let ghost hs = headers@;
        let value = v.to_owned();
        let ghost gv = value;
        headers.insert(k.to_owned(), value);
        proof {
            lemma_bind_viewed(hs, k@, gv);
            assert(viewed_pairs(headers@) =~= bind(viewed_pairs(hs), k@, v@));
        }
        ReponseBuilder { status, headers, cookies, body }
    }

    /// The value bound to a header name, if any.
    pub fn get_header(&self, k: &'static str) -> (r: Option<&String>)
        ensures
            match r {
                Some(v) => value_of(self@.headers, k@) == Some(v@),
                None => value_of(self@.headers, k@) is None,
            },
    {
        let r = self.headers.get(k);
        proof {
            let s = self.headers@;
            lemma_key_index_viewed(s, k@);
            crate::strmap::lemma_key_index(s, k@);
            if key_index(s, k@) >= 0 {
                assert(viewed_pairs(s)[key_index(s, k@)] == (
                    s[key_index(s, k@)].0,
                    s[key_index(s, k@)].1@,
                ));
            }
        }
        r
    }

    /// The header map.
    pub fn headers(&self) -> (r: &StringMap<String>)
        ensures
            viewed_pairs(r@) == self@.headers,
    {
        &self.headers
    }

    /// Binds one cookie under the given name.
    pub fn cookie(self, k: &'static str, v: Cookie) -> (r: Self)
        ensures
            r@ == (SpecBuilder { cookies: bind(self@.cookies, k@, v@), ..self@ }),
    {
        let ReponseBuilder { status, headers, mut cookies, body } = self;
        let ghost cs = cookies@;
        let ghost gv = v;
        cookies.insert(k.to_owned(), v);
        proof {
            lemma_bind_viewed(cs, k@, gv);
            assert(viewed_pairs(cookies@) =~= bind(viewed_pairs(cs), k@, gv@));
        }
        ReponseBuilder { status, headers, cookies, body }
    }

    /// The cookie bound to a name, if any.
    pub fn get_cookie(&self, k: &'static str) -> (r: Option<&Cookie>)
        ensures
            match r {
                Some(v) => value_of(self@.cookies, k@) == Some(v@),
                None => value_of(self@.cookies, k@) is None,
            },
    {
        let r = self.cookies.get(k);
        proof {
            let s = self.cookies@;
            lemma_key_index_viewed(s, k@);
            crate::strmap::lemma_key_index(s, k@);
            if key_index(s, k@) >= 0 {
                assert(viewed_pairs(s)[key_index(s, k@)] == (
                    s[key_index(s, k@)].0,
                    s[key_index(s, k@)].1@,
                ));
            }
        }
        r
    }

    /// The cookie map.
    pub fn cookies(&self) -> (r: &StringMap<Cookie>)
        ensures
            viewed_pairs(r@) == self@.cookies,
    {
        &self.cookies
    }

    /// Replaces the body, sets `Content-Type: text/plain`, and recomputes
    /// `Content-Length` from the body's byte length.
    pub fn body(self, body: &str) -> (r: Self)
        ensures
            r@ == (SpecBuilder {
                headers: bind(
                    bind(self@.headers, "Content-Type"@, "text/plain"@),
                    "Content-Length"@,
                    content_length_digits(body@),
                ),
                body: body@,
                ..self@
            }),
    {
        let with_type = self.header("Content-Type", "text/plain");
        let ReponseBuilder { status, mut headers, cookies, body: _ } = with_type;
        let length = render_u64(body.len() as u64);
        let ghost gl = length;
        let ghost hs = headers@;
        headers.insert("Content-Length".to_owned(), length);
        proof {
            lemma_bind_viewed(hs, "Content-Length"@, gl);
            assert(viewed_pairs(headers@) =~= bind(
                viewed_pairs(hs),
                "Content-Length"@,
                content_length_digits(body@),
            ));
        }
        ReponseBuilder { status, headers, cookies, body: body.to_owned() }
    }

    /// Replaces the `Content-Type` header alone.
    pub fn content_type(self, content: &str) -> (r: Self)
        ensures
            r@ == (SpecBuilder {
                headers: bind(self@.headers, "Content-Type"@, content@),
                ..self@
            }),
    {
        let ReponseBuilder { status, mut headers, cookies, body } = self;
        let ghost hs = headers@;
        let value = content.to_owned();
        let ghost gv = value;
        headers.insert("Content-Type".to_owned(), value);
        proof {
            lemma_bind_viewed(hs, "Content-Type"@, gv);
            assert(viewed_pairs(headers@) =~= bind(viewed_pairs(hs), "Content-Type"@, content@));
        }
        ReponseBuilder { status, headers, cookies, body }
    }

    /// The finished response: the cookies are rendered to their value
    /// text; status, headers and body carry over unchanged.
    #[verifier::loop_isolation(false)]
    pub fn build(self) -> (r: Response)
        ensures
            r@ == (SpecResponse {
                status: self@.status,
                headers: self@.headers,
                cookies: rendered_cookie_pairs(self@.cookies),
                body: self@.body,
            }),
    {
        let cn = self.cookies.len();
        let mut cookies: StringMap<String> = StringMap::new();
        let mut i: usize = 0;
        while i < cn
            invariant
                0 <= i <= cn,
                viewed_pairs(cookies@) == rendered_cookie_pairs(
                    viewed_pairs(self.cookies@.take(i as int)),
                ),
            decreases cn - i,
        {
            let (k, v) = self.cookies.pair_at(i);
            let rendered = v.to_string();
            let ghost gr = rendered;
            let ghost cs = cookies@;
            cookies.push_pair(k.clone(), rendered);
            proof {
                assert(viewed_pairs(cookies@) =~= viewed_pairs(cs).push((k@, gr@)));
                assert(viewed_pairs(self.cookies@.take(i + 1 as int)).drop_last()
                    =~= viewed_pairs(self.cookies@.take(i as int)));
                assert(viewed_pairs(cookies@) =~= rendered_cookie_pairs(
                    viewed_pairs(self.cookies@.take(i + 1 as int)),
                ));
            }
            i = i + 1;
        }
        proof {
            assert(self.cookies@.take(cn as int) =~= self.cookies@);
        }
        let r = Response { status: self.status, headers: self.headers, cookies, body: self.body };
        proof {
            assert(r@ =~~= (SpecResponse {
                status: self@.status,
                headers: self@.headers,
                cookies: rendered_cookie_pairs(self@.cookies),
                body: self@.body,
            }));
        }
        r
    }
}

} // verus!
