//! The wire-format request decoder.
//!
//! A raw request is scanned once, left to right: the method token up to the
//! first space, the target (path, and a query string after `?`), the
//! protocol version after the literal `HTTP/`, the `\r\n`-terminated header
//! lines, and the remaining characters as the body.  A header line whose
//! name is exactly `Cookie` is handed to the cookie parser instead; a line
//! with no colon, or nothing but spaces after the colon, ends the header
//! section.  Every failure is a typed error; decoding never panics.

use vstd::prelude::*;

use crate::cookie::Cookie;
use crate::cookie::SpecCookie;
use crate::cookie::spec_cookie_from;
use crate::method::HttpMethod;
use crate::strmap::StringMap;
use crate::strmap::bind_all;
use crate::strmap::lemma_bind_viewed;
use crate::strmap::str_eq;
use crate::strmap::viewed_pairs;
use crate::text::find_char;
use crate::text::first_index;
use crate::text::spec_trim;
use crate::text::trim_str;
use crate::version::HttpVersion;

verus! {

/// Why a raw request failed to decode.
#[derive(Clone, Copy, Debug, PartialEq, Eq, Structural)]
pub enum DecodeError {
    /// The token before the first space is not a known method.
    InvalidMethod,
    /// The protocol marker or version digits are malformed.
    InvalidVersion,
    /// The input ended where more characters were required.
    UnexpectedEnd,
}

/// The first position at or after `i` holding `a` or `b`, or the length of
/// `s` when neither occurs.
pub open spec fn scan_to(s: Seq<char>, i: int, a: char, b: char) -> int
    decreases s.len() - i,
{
    if i < 0 || i >= s.len() {
        s.len() as int
    } else if s[i] == a || s[i] == b {
        i
    } else {
        scan_to(s, i + 1, a, b)
    }
}

/// The first position at or after `i` where `\r` is followed by `\n`, or
/// -1 when no such pair occurs.
pub open spec fn crlf_index(s: Seq<char>, i: int) -> int
    decreases s.len() - i,
{
    if i < 0 || i >= s.len() {
        -1
    } else if s[i] == '\r' && i + 1 < s.len() && s[i + 1] == '\n' {
        i
    } else {
        crlf_index(s, i + 1)
    }
}

/// The first position at or after `i` holding no space, or the length of
/// `s`.
pub open spec fn space_end(s: Seq<char>, i: int) -> int
    decreases s.len() - i,
{
    if i < 0 || i >= s.len() {
        s.len() as int
    } else if s[i] == ' ' {
        space_end(s, i + 1)
    } else {
        i
    }
}

/// The position after the literal `lit` when it stands at `i` in `s`;
/// otherwise the error: the input was too short, or the characters differ.
pub open spec fn spec_expect(s: Seq<char>, i: int, lit: Seq<char>) -> Result<int, DecodeError> {
    if i < 0 || i + lit.len() > s.len() {
        Err(DecodeError::UnexpectedEnd)
    } else if s.subrange(i, i + lit.len()) == lit {
        Ok(i + lit.len())
    } else {
        Err(DecodeError::InvalidVersion)
    }
}

/// The protocol version read at `i`: `0` expects `.9`; `1` skips a
/// character and then reads `0` as 1.0 and anything else as 1.1; `2`
/// expects `.0`; any other leading character is the 3.0 catch-all and
/// expects `.0`.
pub open spec fn spec_version_at(s: Seq<char>, i: int) -> Result<
    (HttpVersion, int),
    DecodeError,
> {
    if i < 0 || i >= s.len() {
        Err(DecodeError::UnexpectedEnd)
    } else if s[i] == '0' {
        match spec_expect(s, i + 1, ".9"@) {
            Ok(j) => Ok((HttpVersion::HTTP_0_9, j)),
            Err(e) => Err(e),
        }
    } else if s[i] == '1' {
        if i + 2 >= s.len() {
            Err(DecodeError::UnexpectedEnd)
        } else if s[i + 1] != '.' {
            Err(DecodeError::InvalidVersion)
        } else if s[i + 2] == '0' {
            Ok((HttpVersion::HTTP_1_0, i + 3))
        } else {
            Ok((HttpVersion::HTTP_1_1, i + 3))
        }
    } else if s[i] == '2' {
        match spec_expect(s, i + 1, ".0"@) {
            Ok(j) => Ok((HttpVersion::HTTP_2_0, j)),
            Err(e) => Err(e),
        }
    } else {
        match spec_expect(s, i + 1, ".0"@) {
            Ok(j) => Ok((HttpVersion::HTTP_3_0, j)),
            Err(e) => Err(e),
        }
    }
}

/// The header section read from position `i`: the header pairs and cookie
/// pairs in document order, and the body after the terminating line.
///
/// Each line runs to the next `\r\n`; a missing terminator is an error.  A
/// line with no colon, or with only spaces after its first colon, ends the
/// section (the empty line is the common case).  Otherwise the name is the
/// text before the first colon and the value is the text after it, leading
/// spaces skipped and then trimmed.  A name that is exactly `Cookie` sends
/// the value to the cookie parser; a fragment the parser rejects is
/// dropped.
pub open spec fn spec_headers(s: Seq<char>, i: int) -> Result<
    (Seq<(Seq<char>, Seq<char>)>, Seq<(Seq<char>, SpecCookie)>, Seq<char>),
    DecodeError,
>
    decreases s.len() - i,
    via spec_headers_via
{
    let e = crlf_index(s, i);
    if e < 0 {
        Err(DecodeError::UnexpectedEnd)
    } else {
        let line = s.subrange(i, e);
        let c = first_index(line, ':');
        if c < 0 {
            Ok((Seq::empty(), Seq::empty(), s.skip(e + 2)))
        } else {
            let vs = space_end(line, c + 1);
            if vs >= line.len() {
                Ok((Seq::empty(), Seq::empty(), s.skip(e + 2)))
            } else {
                let name = line.take(c);
                let value = spec_trim(line.skip(vs));
                match spec_headers(s, e + 2) {
                    Err(err) => Err(err),
                    Ok((hs, cs, body)) => {
                        if name == "Cookie"@ {
                            match spec_cookie_from(value) {
                                Ok(ck) => Ok((hs, seq![(ck.name, ck)] + cs, body)),
                                Err(_) => Ok((hs, cs, body)),
                            }
                        } else {
                            Ok((seq![(name, value)] + hs, cs, body))
                        }
                    },
                }
            }
        }
    }
}

#[via_fn]
proof fn spec_headers_via(s: Seq<char>, i: int) {
    lemma_crlf_index_bounds(s, i);
}

proof fn lemma_crlf_index_bounds(s: Seq<char>, i: int)
    ensures
        crlf_index(s, i) >= 0 ==> i <= crlf_index(s, i) && crlf_index(s, i) + 1 < s.len(),
    decreases s.len() - i,
{
    if i >= 0 && i < s.len() && !(s[i] == '\r' && i + 1 < s.len() && s[i + 1] == '\n') {
        lemma_crlf_index_bounds(s, i + 1);
    }
}

/// The mathematical value of a decoded [`Request`].
#[verifier::ext_equal]
pub ghost struct SpecRequest {
    pub method: HttpMethod,
    pub version: HttpVersion,
    pub uri: Seq<char>,
    pub get_string: Seq<char>,
    pub headers: Seq<(Seq<char>, Seq<char>)>,
    pub cookies: Seq<(Seq<char>, SpecCookie)>,
    pub body: Seq<char>,
}

/// The request line read from the front of `s`: the method, the path,
/// the raw query string, the protocol version, and the position after the
/// terminating `\r\n`.
pub open spec fn spec_request_line(s: Seq<char>) -> Result<
    (HttpMethod, Seq<char>, Seq<char>, HttpVersion, int),
    DecodeError,
> {
    let sp = scan_to(s, 0, ' ', ' ');
    if sp >= s.len() {
        Err(DecodeError::UnexpectedEnd)
    } else {
        match HttpMethod::spec_from_token(s.take(sp)) {
            None => Err(DecodeError::InvalidMethod),
            Some(method) => {
                let u1 = scan_to(s, sp + 1, ' ', '?');
                let uri = s.subrange(sp + 1, u1);
                let q1 = if u1 < s.len() && s[u1] == '?' {
                    scan_to(s, u1 + 1, ' ', ' ')
                } else {
                    u1
                };
                let get_string = if u1 < s.len() && s[u1] == '?' {
                    s.subrange(u1 + 1, q1)
                } else {
                    Seq::<char>::empty()
                };
                match spec_expect(s, q1 + 1, "HTTP/"@) {
                    Err(e) => Err(e),
                    Ok(v0) => match spec_version_at(s, v0) {
                        Err(e) => Err(e),
                        Ok((version, vend)) => match spec_expect(s, vend, "\r\n"@) {
                            Err(e) => Err(e),
                            Ok(h0) => Ok((method, uri, get_string, version, h0)),
                        },
                    },
                }
            },
        }
    }
}

/// What decoding a raw request yields: the request line, then the header
/// section, then the rest as the body.  Header and cookie pairs are bound
/// into their maps in document order, a later line with the same name
/// overwriting the earlier value.
pub open spec fn spec_decode(s: Seq<char>) -> Result<SpecRequest, DecodeError> {
    match spec_request_line(s) {
        Err(e) => Err(e),
        Ok((method, uri, get_string, version, h0)) => match spec_headers(s, h0) {
            Err(e) => Err(e),
            Ok((hs, cs, body)) => Ok(
                SpecRequest {
                    method,
                    version,
                    uri,
                    get_string,
                    headers: bind_all(hs),
                    cookies: bind_all(cs),
                    body,
                },
            ),
        },
    }
}

/// A decoded request.
#[derive(Debug)]
pub struct Request {
    pub method: HttpMethod,
    pub version: HttpVersion,
    pub uri: String,
    pub get_string: String,
    pub headers: StringMap<String>,
    pub cookies: StringMap<Cookie>,
    pub body: String,
}

impl View for Request {
    type V = SpecRequest;

    open spec fn view(&self) -> SpecRequest {
        SpecRequest {
            method: self.method,
            version: self.version,
            uri: self.uri@,
            get_string: self.get_string@,
            headers: viewed_pairs(self.headers@),
            cookies: viewed_pairs(self.cookies@),
            body: self.body@,
        }
    }
}

/// The view of a decode result.
pub open spec fn decode_result_view(r: Result<Request, DecodeError>) -> Result<
    SpecRequest,
    DecodeError,
> {
    match r {
        Ok(req) => Ok(req@),
        Err(e) => Err(e),
    }
}

/// The first position at or after `from` holding `a` or `b`, or the length
/// of `s`.
fn scan_to_exec(s: &str, from: usize, a: char, b: char) -> (r: usize)
    requires
        from <= s@.len(),
    ensures
        r == scan_to(s@, from as int, a, b),
        from <= r <= s@.len(),
        r < s@.len() ==> (s@[r as int] == a || s@[r as int] == b),
{
    let n = s.unicode_len();
    let mut i = from;
    while i < n
        invariant
            from <= i <= n == s@.len(),
            scan_to(s@, from as int, a, b) == scan_to(s@, i as int, a, b),
        decreases n - i,
    {
        let c = s.get_char(i);
        if c == a || c == b {
            return i;
        }
        i = i + 1;
    }
    i
}

/// The first position at or after `from` where `\r\n` begins, if any.
fn find_crlf(s: &str, from: usize) -> (r: Option<usize>)
    requires
        from <= s@.len(),
    ensures
        match r {
            Some(e) => e == crlf_index(s@, from as int) && from <= e && e + 1 < s@.len(),
            None => crlf_index(s@, from as int) == -1,
        },
{
    let n = s.unicode_len();
    let mut i = from;
    while i < n
        invariant
            from <= i <= n == s@.len(),
            crlf_index(s@, from as int) == crlf_index(s@, i as int),
        decreases n - i,
    {
        if s.get_char(i) == '\r' && i + 1 < n && s.get_char(i + 1) == '\n' {
            return Some(i);
        }
        i = i + 1;
    }
    None
}

/// Expects the literal `lit` at position `i` of `s`.
fn expect_lit(s: &str, i: usize, lit: &str) -> (r: Result<usize, DecodeError>)
    ensures
        match r {
            Ok(j) => spec_expect(s@, i as int, lit@) == Ok::<int, DecodeError>(j as int) && j
                == i + lit@.len() && j <= s@.len(),
            Err(e) => spec_expect(s@, i as int, lit@) == Err::<int, DecodeError>(e),
        },
{
    let n = s.unicode_len();
    let m = lit.unicode_len();
    if m > n || i > n - m {
        return Err(DecodeError::UnexpectedEnd);
    }
    if str_eq(s.substring_char(i, i + m), lit) {
        Ok(i + m)
    } else {
        Err(DecodeError::InvalidVersion)
    }
}

/// Parses the request line, per [`spec_request_line`].
#[verifier::loop_isolation(false)]
fn parse_request_line(s: &str) -> (r: Result<
    (HttpMethod, String, String, HttpVersion, usize),
    DecodeError,
>)
    ensures
        match r {
            Ok((method, uri, get_string, version, h0)) => spec_request_line(s@) == Ok::<
                _,
                DecodeError,
            >((method, uri@, get_string@, version, h0 as int)) && h0 <= s@.len(),
            Err(e) => spec_request_line(s@) == Err::<
                (HttpMethod, Seq<char>, Seq<char>, HttpVersion, int),
                DecodeError,
            >(e),
        },
{
    let n = s.unicode_len();
    // Method: the token up to the first space, matched exactly.
    let sp = scan_to_exec(s, 0, ' ', ' ');
    if sp >= n {
        return Err(DecodeError::UnexpectedEnd);
    }
    let method = match HttpMethod::from_token(s.substring_char(0, sp)) {
        Some(m) => m,
        None => {
            proof {
                assert(s@.subrange(0, sp as int) =~= s@.take(sp as int));
            }
            return Err(DecodeError::InvalidMethod);
        },
    };
    proof {
        assert(s@.subrange(0, sp as int) =~= s@.take(sp as int));
    }
    // Target: the path up to a space or `?`, then a query string up to a
    // space.
    let u1 = scan_to_exec(s, sp + 1, ' ', '?');
    let uri = s.substring_char(sp + 1, u1).to_owned();
    let (get_string, q1) = if u1 < n && s.get_char(u1) == '?' {
        let q1 = scan_to_exec(s, u1 + 1, ' ', ' ');
        (s.substring_char(u1 + 1, q1).to_owned(), q1)
    } else {
        (String::new(), u1)
    };
    // Version: the literal `HTTP/` after the space, then the digits.
    if q1 >= n {
        return Err(DecodeError::UnexpectedEnd);
    }
    let v0 = match expect_lit(s, q1 + 1, "HTTP/") {
        Ok(j) => j,
        Err(e) => {
            return Err(e);
        },
    };
    let (version, vend): (HttpVersion, usize) = if v0 >= n {
        return Err(DecodeError::UnexpectedEnd);
    } else {
        let major = s.get_char(v0);
        if major == '0' {
            match expect_lit(s, v0 + 1, ".9") {
                Ok(j) => (HttpVersion::HTTP_0_9, j),
                Err(e) => {
                    return Err(e);
                },
            }
        } else if major == '1' {
            if n - v0 < 3 {
                return Err(DecodeError::UnexpectedEnd);
            }
            if s.get_char(v0 + 1) != '.' {
                return Err(DecodeError::InvalidVersion);
            }
            if s.get_char(v0 + 2) == '0' {
                (HttpVersion::HTTP_1_0, v0 + 3)
            } else {
                (HttpVersion::HTTP_1_1, v0 + 3)
            }
        } else if major == '2' {
            match expect_lit(s, v0 + 1, ".0") {
                Ok(j) => (HttpVersion::HTTP_2_0, j),
                Err(e) => {
                    return Err(e);
                },
            }
        } else {
            match expect_lit(s, v0 + 1, ".0") {
                Ok(j) => (HttpVersion::HTTP_3_0, j),
                Err(e) => {
                    return Err(e);
                },
            }
        }
    };
    let h0 = match expect_lit(s, vend, "\r\n") {
        Ok(j) => j,
        Err(e) => {
            return Err(e);
        },
    };
    Ok((method, uri, get_string, version, h0))
}

impl Request {
    /// Decodes a raw request, per the grammar in [`spec_decode`]; every
    /// malformed or truncated input yields a typed error.
    #[verifier::loop_isolation(false)]
    #[verifier::rlimit(50)]
    pub fn from_str(s: &str) -> (r: Result<Request, DecodeError>)
        ensures
            decode_result_view(r) == spec_decode(s@),
    {
        let n = s.unicode_len();
        let (method, uri, get_string, version, h0) = match parse_request_line(s) {
            Ok(t) => t,
            Err(e) => {
                return Err(e);
            },
        };
        // Header section.
        // Header section.
        let mut headers: StringMap<String> = StringMap::new();
        let mut cookies: StringMap<Cookie> = StringMap::new();
        let ghost mut done_h: Seq<(Seq<char>, Seq<char>)> = Seq::empty();
        let ghost mut done_c: Seq<(Seq<char>, SpecCookie)> = Seq::empty();
        let mut i = h0;
        loop
            invariant
                h0 <= i <= n == s@.len(),
                viewed_pairs(headers@) == bind_all(done_h),
                viewed_pairs(cookies@) == bind_all(done_c),
                match spec_headers(s@, i as int) {
                    Ok(t) => spec_headers(s@, h0 as int) == Ok::<_, DecodeError>(
                        (done_h + t.0, done_c + t.1, t.2),
                    ),
                    Err(e) => spec_headers(s@, h0 as int) == Err::<
                        (Seq<(Seq<char>, Seq<char>)>, Seq<(Seq<char>, SpecCookie)>, Seq<char>),
                        DecodeError,
                    >(e),
                },
            decreases n - i,
        {
            let e = match find_crlf(s, i) {
                Some(e) => e,
                None => {
                    return Err(DecodeError::UnexpectedEnd);
                },
            };
            let line = s.substring_char(i, e);
            let ghost lv = s@.subrange(i as int, e as int);
            let ln = e - i;
            let terminated: bool;
            match find_char(line, ':') {
                None => {
                    terminated = true;
                },
                Some(c) => {
                    // Skip the spaces after the colon.
                    let mut vs = c + 1;
                    while vs < ln && line.get_char(vs) == ' '
                        invariant
                            c + 1 <= vs <= ln == lv.len(),
                            line@ == lv,
                            space_end(lv, c + 1) == space_end(lv, vs as int),
                        decreases ln - vs,
                    {
                        vs = vs + 1;
                    }
                    assert(vs == space_end(lv, c + 1));
                    if vs >= ln {
                        terminated = true;
                    } else {
                        terminated = false;
                        let name = line.substring_char(0, c);
                        let value = trim_str(line.substring_char(vs, ln));
                        proof {
                            assert(lv.subrange(0, c as int) =~= lv.take(c as int));
                            assert(lv.subrange(vs as int, ln as int) =~= lv.skip(vs as int));
                        }
                        let ghost done_h0 = done_h;
                        let ghost done_c0 = done_c;
                        if str_eq(name, "Cookie") {
                            match Cookie::from(value.as_str()) {
                                Ok(ck) => {
                                    let ghost ckv = ck@;
                                    let key = ck.name.clone();
                                    proof {
                                        lemma_bind_viewed(cookies@, key@, ck);
                                        assert((done_c + seq![(ckv.name, ckv)]).drop_last()
                                            =~= done_c);
                                    }
                                    cookies.insert(key, ck);
                                    proof {
                                        done_c = done_c + seq![(ckv.name, ckv)];
                                        assert(viewed_pairs(cookies@) =~= bind_all(done_c));
                                        match spec_headers(s@, e + 2 as int) {
                                            Ok(t2) => {
                                                assert(spec_headers(s@, i as int) == Ok::<
                                                    _,
                                                    DecodeError,
                                                >((t2.0, seq![(ckv.name, ckv)] + t2.1, t2.2)));
                                                assert(done_c0 + (seq![(ckv.name, ckv)] + t2.1)
                                                    =~= done_c + t2.1);
                                            },
                                            Err(_) => {},
                                        }
                                    }
                                },
                                Err(_) => {},
                            }
                        } else {
                            let name_s = name.to_owned();
                            let ghost nv = name_s@;
                            let ghost vv = value@;
                            proof {
                                lemma_bind_viewed(headers@, nv, value);
                                assert((done_h + seq![(nv, vv)]).drop_last() =~= done_h);
                            }
                            headers.insert(name_s, value);
                            proof {
                                done_h = done_h + seq![(nv, vv)];
                                assert(viewed_pairs(headers@) =~= bind_all(done_h));
                                match spec_headers(s@, e + 2 as int) {
                                    Ok(t2) => {
                                        assert(spec_headers(s@, i as int) == Ok::<
                                            _,
                                            DecodeError,
                                        >((seq![(nv, vv)] + t2.0, t2.1, t2.2)));
                                        assert(done_h0 + (seq![(nv, vv)] + t2.0) =~= done_h
                                            + t2.0);
                                    },
                                    Err(_) => {},
                                }
                            }
                        }
                    }
                },
            }
            if terminated {
                let body = s.substring_char(e + 2, n).to_owned();
                let req = Request { method, version, uri, get_string, headers, cookies, body };
                proof {
                    let t = spec_headers(s@, i as int)->Ok_0;
                    assert(t.0 =~= Seq::<(Seq<char>, Seq<char>)>::empty());
                    assert(t.1 =~= Seq::<(Seq<char>, SpecCookie)>::empty());
                    assert(done_h + t.0 =~= done_h);
                    assert(done_c + t.1 =~= done_c);
                    assert(req@ =~~= spec_decode(s@)->Ok_0);
                }
                return Ok(req);
            }
            i = e + 2;
        }
    }
}

} // verus!
