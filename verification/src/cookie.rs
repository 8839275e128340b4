//! Cookies: the parsed representation, the attribute parser for `Cookie:`
//! header values, and a fluent builder for the response side.
//!
//! Parsing splits on `;` and trims each part.  The first part must be
//! `name=value` with a nonempty name; later parts are attributes matched
//! case-insensitively against the fixed set `path`, `domain`, `max-age`,
//! `samesite`, `secure` and `httponly`.  A `max-age` value that is not a
//! nonnegative 64-bit integer is dropped; unknown attributes are ignored.
//! A missing `=` or an empty name in the first part is a recoverable error.

use vstd::prelude::*;

use crate::decimal::spec_parse_u64;
use crate::decimal::parse_u64;
use crate::text::eq_lowered;
use crate::text::find_char;
use crate::text::first_index;
use crate::text::lemma_split_nonempty;
use crate::text::lower_seq;
use crate::text::spec_split;
use crate::text::spec_trim;
use crate::text::split_str;
use crate::text::trim_str;
use crate::text::views_of;

verus! {

/// Why a cookie fragment failed to parse.
#[derive(Clone, Copy, Debug, PartialEq, Eq, Structural)]
pub enum CookieError {
    /// The first part holds no `=`.
    MissingSeparator,
    /// The name before the first `=` is empty.
    EmptyName,
}

/// A cookie: name, value, and the optional attributes of the response side.
#[derive(Clone, Debug, PartialEq, Eq)]
pub struct Cookie {
    pub name: String,
    pub value: String,
    pub path: Option<String>,
    pub domain: Option<String>,
    pub max_age: Option<u64>,
    pub secure: bool,
    pub http_only: bool,
    pub same_site: Option<String>,
}

/// The mathematical value of a [`Cookie`].
pub ghost struct SpecCookie {
    pub name: Seq<char>,
    pub value: Seq<char>,
    pub path: Option<Seq<char>>,
    pub domain: Option<Seq<char>>,
    pub max_age: Option<u64>,
    pub secure: bool,
    pub http_only: bool,
    pub same_site: Option<Seq<char>>,
}

/// The view of an optional string.
pub open spec fn opt_view(o: Option<String>) -> Option<Seq<char>> {
    match o {
        Some(s) => Some(s@),
        None => None,
    }
}

impl View for Cookie {
    type V = SpecCookie;

    open spec fn view(&self) -> SpecCookie {
        SpecCookie {
            name: self.name@,
            value: self.value@,
            path: opt_view(self.path),
            domain: opt_view(self.domain),
            max_age: self.max_age,
            secure: self.secure,
            http_only: self.http_only,
            same_site: opt_view(self.same_site),
        }
    }
}

/// A cookie whose attributes are all absent.
pub open spec fn spec_bare_cookie(name: Seq<char>, value: Seq<char>) -> SpecCookie {
    SpecCookie {
        name: name,
        value: value,
        path: None,
        domain: None,
        max_age: None,
        secure: false,
        http_only: false,
        same_site: None,
    }
}

/// The cookie after applying one already-trimmed attribute part.
pub open spec fn spec_apply_attr(c: SpecCookie, part: Seq<char>) -> SpecCookie {
    let j = first_index(part, '=');
    let key = lower_seq(if j < 0 { part } else { part.take(j) });
    let val = if j < 0 { Option::<Seq<char>>::None } else { Some(part.skip(j + 1)) };
    if key == "path"@ {
        SpecCookie { path: val, ..c }
    } else if key == "domain"@ {
        SpecCookie { domain: val, ..c }
    } else if key == "max-age"@ {
        match val {
            Some(v) => match spec_parse_u64(v) {
                Some(secs) => SpecCookie { max_age: Some(secs), ..c },
                None => c,
            },
            None => c,
        }
    } else if key == "samesite"@ {
        SpecCookie { same_site: val, ..c }
    } else if key == "secure"@ {
        SpecCookie { secure: true, ..c }
    } else if key == "httponly"@ {
        SpecCookie { http_only: true, ..c }
    } else {
        c
    }
}

/// The cookie after applying (trimmed) attribute parts `i` onward.
pub open spec fn spec_apply_attrs_from(c: SpecCookie, parts: Seq<Seq<char>>, i: int) -> SpecCookie
    decreases parts.len() - i,
{
    if i < 0 || i >= parts.len() {
        c
    } else {
        spec_apply_attrs_from(spec_apply_attr(c, spec_trim(parts[i])), parts, i + 1)
    }
}

/// What parsing a cookie fragment yields.  The fragment is split on `;`
/// and each part trimmed; the first part must be `name=value` with a
/// nonempty name (the value keeps any embedded `=` verbatim), and the
/// remaining parts are applied as attributes in order.
pub open spec fn spec_cookie_from(s: Seq<char>) -> Result<SpecCookie, CookieError> {
    let parts = spec_split(s, ';');
    let head = spec_trim(parts[0]);
    let j = first_index(head, '=');
    if j < 0 {
        Err(CookieError::MissingSeparator)
    } else if j == 0 {
        Err(CookieError::EmptyName)
    } else {
        Ok(spec_apply_attrs_from(spec_bare_cookie(head.take(j), head.skip(j + 1)), parts, 1))
    }
}

/// The view of a parse result.
pub open spec fn cookie_result_view(r: Result<Cookie, CookieError>) -> Result<
    SpecCookie,
    CookieError,
> {
    match r {
        Ok(c) => Ok(c@),
        Err(e) => Err(e),
    }
}

fn apply_attr(c: &mut Cookie, part: &str)
    ensures
        final(c)@ == spec_apply_attr(old(c)@, part@),
{
    let n = part.unicode_len();
    let (key, val): (String, Option<String>) = match find_char(part, '=') {
        None => (part.to_owned(), None),
        Some(j) => (
            part.substring_char(0, j).to_owned(),
            Some(part.substring_char(j + 1, n).to_owned()),
        ),
    };
    if eq_lowered(key.as_str(), "path") {
        c.path = val;
    } else if eq_lowered(key.as_str(), "domain") {
        c.domain = val;
    } else if eq_lowered(key.as_str(), "max-age") {
        match val {
            Some(v) => {
                match parse_u64(v.as_str()) {
                    Some(secs) => {
                        c.max_age = Some(secs);
                    },
                    None => {},
                }
            },
            None => {},
        }
    } else if eq_lowered(key.as_str(), "samesite") {
        c.same_site = val;
    } else if eq_lowered(key.as_str(), "secure") {
        c.secure = true;
    } else if eq_lowered(key.as_str(), "httponly") {
        c.http_only = true;
    }
}

impl Cookie {
    /// Parses a cookie fragment, as found in a `Cookie:` header value or a
    /// `Set-Cookie:` line; a missing `=` or an empty name is an error.
    pub fn from(value: &str) -> (r: Result<Cookie, CookieError>)
        ensures
            cookie_result_view(r) == spec_cookie_from(value@),
    {
        proof {
            lemma_split_nonempty(value@, ';');
        }
        let parts = split_str(value, ';');
        let head = trim_str(parts[0].as_str());
        let hn = head.unicode_len();
        match find_char(head.as_str(), '=') {
            None => Err(CookieError::MissingSeparator),
            Some(j) => {
                if j == 0 {
                    return Err(CookieError::EmptyName);
                }
                let name = head.as_str().substring_char(0, j).to_owned();
                let val = head.as_str().substring_char(j + 1, hn).to_owned();
                let mut cookie = Cookie {
                    name,
                    value: val,
                    path: None,
                    domain: None,
                    max_age: None,
                    secure: false,
                    http_only: false,
                    same_site: None,
                };
                proof {
                    assert(head@.subrange(0, j as int) =~= head@.take(j as int));
                    assert(head@.subrange(j + 1, hn as int) =~= head@.skip(j + 1));
                }
                let m = parts.len();
                let ghost pv = views_of(parts@);
                let ghost goal = spec_apply_attrs_from(cookie@, pv, 1);
                let mut i: usize = 1;
                while i < m
                    invariant
                        1 <= i <= m == parts@.len(),
                        pv == views_of(parts@),
                        goal == spec_apply_attrs_from(cookie@, pv, i as int),
                    decreases m - i,
                {
                    let trimmed = trim_str(parts[i].as_str());
                    apply_attr(&mut cookie, trimmed.as_str());
                    i = i + 1;
                }
                Ok(cookie)
            },
        }
    }

    /// The text a cookie contributes to a rendered `Set-Cookie` value: its
    /// value alone.
    pub fn to_string(&self) -> (r: String)
        ensures
            r@ == self@.value,
    {
        self.value.clone()
    }
}

/// A fluent builder for a response-side [`Cookie`].
#[derive(Clone, Debug, PartialEq, Eq)]
pub struct CookieBuilder {
    name: String,
    value: String,
    path: Option<String>,
    domain: Option<String>,
    max_age: Option<u64>,
    secure: bool,
    http_only: bool,
    same_site: Option<String>,
}

impl View for CookieBuilder {
    type V = SpecCookie;

    closed spec fn view(&self) -> SpecCookie {
        SpecCookie {
            name: self.name@,
            value: self.value@,
            path: opt_view(self.path),
            domain: opt_view(self.domain),
            max_age: self.max_age,
            secure: self.secure,
            http_only: self.http_only,
            same_site: opt_view(self.same_site),
        }
    }
}

impl CookieBuilder {
    /// A builder for a cookie with the given name and value and no
    /// attributes.
    pub fn new(name: String, value: String) -> (r: Self)
        ensures
            r@ == spec_bare_cookie(name@, value@),
    {
        Self {
            name,
            value,
            path: None,
            domain: None,
            max_age: None,
            secure: false,
            http_only: false,
            same_site: None,
        }
    }

    /// Sets the `Path` attribute.
    pub fn path(self, path: String) -> (r: Self)
        ensures
            r@ == (SpecCookie { path: Some(path@), ..self@ }),
    {
        Self { path: Some(path), ..self }
    }

    /// Sets the `Domain` attribute.
    pub fn domain(self, domain: String) -> (r: Self)
        ensures
            r@ == (SpecCookie { domain: Some(domain@), ..self@ }),
    {
        Self { domain: Some(domain), ..self }
    }

    /// Sets the `Max-Age` attribute, in seconds.
    pub fn max_age(self, seconds: u64) -> (r: Self)
        ensures
            r@ == (SpecCookie { max_age: Some(seconds), ..self@ }),
    {
        Self { max_age: Some(seconds), ..self }
    }

    /// Sets the `Secure` flag.
    pub fn secure(self, secure: bool) -> (r: Self)
        ensures
            r@ == (SpecCookie { secure: secure, ..self@ }),
    {
        Self { secure, ..self }
    }

    /// Sets the `HttpOnly` flag.
    pub fn http_only(self, http_only: bool) -> (r: Self)
        ensures
            r@ == (SpecCookie { http_only: http_only, ..self@ }),
    {
        Self { http_only, ..self }
    }

    /// Sets the `SameSite` policy.
    pub fn same_site(self, policy: String) -> (r: Self)
        ensures
            r@ == (SpecCookie { same_site: Some(policy@), ..self@ }),
    {
        Self { same_site: Some(policy), ..self }
    }

    /// The finished cookie.
    pub fn build(self) -> (r: Cookie)
        ensures
            r@ == self@,
    {
        Cookie {
            name: self.name,
            value: self.value,
            path: self.path,
            domain: self.domain,
            max_age: self.max_age,
            secure: self.secure,
            http_only: self.http_only,
            same_site: self.same_site,
        }
    }
}

} // verus!
