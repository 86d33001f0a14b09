//! Request configuration: the HTTP method, the merged header set, the
//! optional proxy and the optional inter-request delay, together with the
//! standalone input validators.

use vstd::prelude::*;
use vstd::string::StrSliceExecFns;
use vstd::string::StringExecFns;
use crate::errors::ScanError;
use crate::headers::HeaderList;
use crate::headers::apply_custom_headers;
use crate::headers::check_header_value;
use crate::headers::default_headers;
use crate::headers::headers_wf;
use crate::headers::lemma_apply_lines_preserves_wf;
use crate::headers::lemma_insert_preserves_wf;
use crate::headers::spec_default_headers;
use crate::headers::spec_insert_header;
use crate::headers::spec_merge_custom;
use crate::headers::valid_header_value;
use crate::target::parses_as_url;
use crate::target::url_parses;
use crate::text::find_char;
use crate::text::find_char_index;
use crate::text::lemma_find_char;
use crate::text::parse_u64;
use crate::text::parses_as_u64;
use crate::text::dec_body;
use crate::text::dec_value;
use crate::text::split_lines;
use crate::text::split_text_lines;

verus! {

/// The request method: only these two are accepted.
#[derive(Clone, Copy, Debug, PartialEq, Eq, Structural)]
pub enum Method {
    Get,
    Post,
}

/// `m` spells GET, in any letter case.
pub open spec fn is_get_method(m: Seq<char>) -> bool {
    m.len() == 3 && (m[0] == 'G' || m[0] == 'g') && (m[1] == 'E' || m[1] == 'e') && (m[2] == 'T'
        || m[2] == 't')
}

/// `m` spells POST, in any letter case.
pub open spec fn is_post_method(m: Seq<char>) -> bool {
    m.len() == 4 && (m[0] == 'P' || m[0] == 'p') && (m[1] == 'O' || m[1] == 'o') && (m[2] == 'S'
        || m[2] == 's') && (m[3] == 'T' || m[3] == 't')
}

/// An accepted method string.
pub open spec fn valid_method(m: Seq<char>) -> bool {
    is_get_method(m) || is_post_method(m)
}

/// Check the method string, case-insensitively.  Anything but GET or POST
/// is rejected at configuration time.
pub fn validate_method(method: &String) -> (r: Result<Method, ScanError>)
    ensures
        r is Ok <==> valid_method(method@),
        r matches Ok(mm) ==> (mm == Method::Post <==> is_post_method(method@)),
        r matches Ok(mm) ==> (mm == Method::Get <==> is_get_method(method@)),
        r matches Err(e) ==> e == ScanError::InvalidMethod,
{
    let s = method.as_str();
    let n = s.unicode_len();
    if n == 3 {
        let c0 = s.get_char(0);
        let c1 = s.get_char(1);
        let c2 = s.get_char(2);
        if (c0 == 'G' || c0 == 'g') && (c1 == 'E' || c1 == 'e') && (c2 == 'T' || c2 == 't') {
            return Ok(Method::Get);
        }
    }
    if n == 4 {
        let c0 = s.get_char(0);
        let c1 = s.get_char(1);
        let c2 = s.get_char(2);
        let c3 = s.get_char(3);
        if (c0 == 'P' || c0 == 'p') && (c1 == 'O' || c1 == 'o') && (c2 == 'S' || c2 == 's') && (c3
            == 'T' || c3 == 't') {
            return Ok(Method::Post);
        }
    }
    Err(ScanError::InvalidMethod)
}

/// Check that a cookie holds no line break, as a standalone cookie
/// validator; the full configuration check is stricter.
pub fn validate_cookie(cookie: &String) -> (r: Result<(), ScanError>)
    ensures
        r is Ok <==> (forall|i: int| 0 <= i < cookie@.len() ==> cookie@[i] != '\n'),
        r matches Err(e) ==> e == ScanError::InvalidCookie,
{
    let s = cookie.as_str();
    let n = s.unicode_len();
    let mut i: usize = 0;
    while i < n
        invariant
            0 <= i <= n,
            n == s@.len(),
            s@ == cookie@,
            forall|k: int| 0 <= k < i ==> s@[k] != '\n',
        decreases n - i,
    {
        if s.get_char(i) == '\n' {
            proof {
                assert(cookie@[i as int] == '\n');
            }
            return Err(ScanError::InvalidCookie);
        }
        i = i + 1;
    }
    Ok(())
}

/// Parse the inter-request delay in milliseconds.
pub fn validate_rate_limit(rate_limit: &String) -> (r: Result<u64, ScanError>)
    ensures
        r is Ok <==> parses_as_u64(rate_limit@),
        r matches Ok(v) ==> v as nat == dec_value(dec_body(rate_limit@)),
        r matches Err(e) ==> e == ScanError::InvalidRateLimit,
{
    match parse_u64(rate_limit.as_str()) {
        Some(v) => Ok(v),
        None => Err(ScanError::InvalidRateLimit),
    }
}

/// A character the strict line check accepts in a header name: letters,
/// digits and hyphen.
pub open spec fn is_strict_name_char(c: char) -> bool {
    let u = c as u32;
    (48 <= u && u <= 57) || (65 <= u && u <= 90) || (97 <= u && u <= 122) || c == '-'
}

fn strict_name_char(c: char) -> (r: bool)
    ensures
        r == is_strict_name_char(c),
{
    let u = c as u32;
    (48 <= u && u <= 57) || (65 <= u && u <= 90) || (97 <= u && u <= 122) || c == '-'
}

/// The strict shape of one header line: one or more name characters, a
/// colon, a space, and at least one further character.
pub open spec fn strict_line_ok(l: Seq<char>) -> bool {
    let i = find_char(l, ':');
    &&& 1 <= i
    &&& i + 2 < l.len()
    &&& l[i + 1] == ' '
    &&& forall|k: int| 0 <= k < i ==> is_strict_name_char(l[k])
}

fn check_strict_line(l: &String) -> (r: bool)
    ensures
        r == strict_line_ok(l@),
{
    let s = l.as_str();
    let n = s.unicode_len();
    let i = find_char_index(s, ':');
    proof {
        lemma_find_char(s@, ':');
    }
    if i < 1 || n - i <= 2 {
        return false;
    }
    if s.get_char(i + 1) != ' ' {
        return false;
    }
    let mut k: usize = 0;
    while k < i
        invariant
            0 <= k <= i,
            i < n,
            n == s@.len(),
            s@ == l@,
            i == find_char(s@, ':'),
            forall|j: int| 0 <= j < k ==> is_strict_name_char(s@[j]),
        decreases i - k,
    {
        if !strict_name_char(s.get_char(k)) {
            proof {
                assert(!is_strict_name_char(s@[k as int]));
            }
            return false;
        }
        k = k + 1;
    }
    true
}

/// Check a whole custom-header block against the strict line shape.  Every
/// line must look like `Name: value`; the error carries a diagnostic naming
/// the first offending line.
pub fn validate_headers(headers: &String) -> (r: Result<(), String>)
    ensures
        r is Ok <==> (forall|i: int|
            0 <= i < split_lines(headers@).len() ==> strict_line_ok(split_lines(headers@)[i])),
        r matches Err(l) ==> exists|i: int|
            0 <= i < split_lines(headers@).len() && !strict_line_ok(split_lines(headers@)[i])
                && l@ == "Invalid header format: "@ + split_lines(headers@)[i] && (forall|k: int|
                0 <= k < i ==> strict_line_ok(split_lines(headers@)[k])),
{
    let lines = split_text_lines(headers.as_str());
    let n = lines.len();
    let mut i: usize = 0;
    while i < n
        invariant
            0 <= i <= n,
            n == lines@.len(),
            lines@.map_values(|t: String| t@) == split_lines(headers@),
            forall|k: int| 0 <= k < i ==> strict_line_ok(split_lines(headers@)[k]),
        decreases n - i,
    {
        proof {
            assert(split_lines(headers@)[i as int] == lines@[i as int]@);
        }
        if !check_strict_line(&lines[i]) {
            return Err(String::from_str("Invalid header format: ").concat(lines[i].as_str()));
        }
        i = i + 1;
    }
    Ok(())
}

/// The configuration each probe request is built from.
#[derive(Debug)]
pub struct RequestConfig {
    pub method: Method,
    pub headers: HeaderList,
    pub proxy: Option<String>,
    pub delay_ms: Option<u64>,
}

/// The view of an optional borrowed string.
pub open spec fn opt_str_view(o: Option<&String>) -> Option<Seq<char>> {
    match o {
        Some(s) => Some(s@),
        None => None,
    }
}

/// The view of an optional owned string.
pub open spec fn opt_string_view(o: Option<String>) -> Option<Seq<char>> {
    match o {
        Some(s) => Some(s@),
        None => None,
    }
}

/// An acceptable cookie: absent, or encodable as a header value.
pub open spec fn cookie_ok(c: Option<Seq<char>>) -> bool {
    match c {
        Some(k) => valid_header_value(k),
        None => true,
    }
}

/// An acceptable proxy: absent, or a parseable URL.
pub open spec fn proxy_ok(p: Option<Seq<char>>) -> bool {
    match p {
        Some(q) => url_parses(q),
        None => true,
    }
}

/// The merged header set: built-in defaults, overlaid by the custom header
/// lines in order, overlaid by the cookie.
pub open spec fn spec_config_headers(
    custom: Option<Seq<char>>,
    cookie: Option<Seq<char>>,
) -> Seq<(Seq<char>, Seq<char>)> {
    let base = spec_default_headers();
    let merged = match custom {
        Some(c) => spec_merge_custom(base, c),
        None => base,
    };
    match cookie {
        Some(k) => spec_insert_header(merged, "cookie"@, k),
        None => merged,
    }
}

/// Which fatal error configuration reports first: method, then cookie,
/// then proxy.
pub open spec fn spec_config_error(
    method: Seq<char>,
    cookie: Option<Seq<char>>,
    proxy: Option<Seq<char>>,
) -> ScanError {
    if !valid_method(method) {
        ScanError::InvalidMethod
    } else if !cookie_ok(cookie) {
        ScanError::InvalidCookie
    } else {
        ScanError::InvalidProxy
    }
}

/// Build the request configuration: validate the method, merge the headers
/// (defaults, then custom lines, then the cookie) and validate the proxy.
/// A malformed custom header line is skipped, never fatal; a bad method,
/// cookie or proxy aborts the run.
pub fn build_request_config(
    method: &String,
    custom_headers: Option<&String>,
    cookie: Option<&String>,
    proxy: Option<&String>,
    delay_ms: Option<u64>,
) -> (r: Result<RequestConfig, ScanError>)
    ensures
        r is Ok <==> valid_method(method@) && cookie_ok(opt_str_view(cookie)) && proxy_ok(
            opt_str_view(proxy),
        ),
        r matches Err(e) ==> e == spec_config_error(
            method@,
            opt_str_view(cookie),
            opt_str_view(proxy),
        ),
        r matches Ok(c) ==> c.headers@ == spec_config_headers(
            opt_str_view(custom_headers),
            opt_str_view(cookie),
        ),
        r matches Ok(c) ==> headers_wf(c.headers@),
        r matches Ok(c) ==> (c.method == Method::Post <==> is_post_method(method@)),
        r matches Ok(c) ==> (c.method == Method::Get <==> is_get_method(method@)),
        r matches Ok(c) ==> opt_string_view(c.proxy) == opt_str_view(proxy),
        r matches Ok(c) ==> c.delay_ms == delay_ms,
{
    let m = match validate_method(method) {
        Ok(m) => m,
        Err(e) => {
            return Err(e);
        },
    };
    let mut h = default_headers();
    if let Some(raw) = custom_headers {
        apply_custom_headers(&mut h, raw.as_str());
        proof {
            lemma_apply_lines_preserves_wf(
                spec_default_headers(),
                split_lines(crate::text::unescaped(raw@)),
            );
        }
    }
    if let Some(k) = cookie {
        if !check_header_value(k.as_str()) {
            return Err(ScanError::InvalidCookie);
        }
        proof {
            lemma_insert_preserves_wf(h@, "cookie"@, k@);
        }
        h.insert(String::from_str("cookie"), k.clone());
    }
    let p = match proxy {
        Some(q) => {
            if !parses_as_url(q.as_str()) {
                return Err(ScanError::InvalidProxy);
            }
            Some(q.clone())
        },
        None => None,
    };
    Ok(RequestConfig { method: m, headers: h, proxy: p, delay_ms })
}

} // verus!
