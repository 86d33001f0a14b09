//! Origin normalizer: percent-decodes the raw target URL, parses it and
//! extracts the host that the bypass origins are derived from.

use vstd::prelude::*;
use crate::errors::ScanError;

verus! {

/// What percent-decoding (with lossy UTF-8 recovery) yields for a string.
pub uninterp spec fn percent_decoded(s: Seq<char>) -> Seq<char>;

/// Relies on `percent_encoding::percent_decode_str` and
/// `PercentDecode::decode_utf8_lossy`: the decoded text is a function of the
/// input alone, and an input without `%` is returned unchanged.
#[verifier::external_body]
pub(crate) fn percent_decode(s: &str) -> (r: String)
    ensures
        r@ == percent_decoded(s@),
        (forall|i: int| 0 <= i < s@.len() ==> s@[i] != '%') ==> r@ == s@,
{
    percent_encoding::percent_decode_str(s).decode_utf8_lossy().to_string()
}

/// Whether a string parses as an absolute URL.
pub uninterp spec fn url_parses(s: Seq<char>) -> bool;

/// Relies on `url::Url::parse`: success is a function of the URL text alone.
#[verifier::external_body]
pub(crate) fn parses_as_url(s: &str) -> (r: bool)
    ensures
        r == url_parses(s@),
{
    url::Url::parse(s).is_ok()
}

/// The host component of a URL string: `None` when the string does not
/// parse as an absolute URL or the parsed URL has no host.
pub uninterp spec fn url_host(s: Seq<char>) -> Option<Seq<char>>;

/// Relies on `url::Url::parse` and `url::Url::host_str`: both are pure
/// functions of the URL text; the result is the parsed URL's host, absent
/// when parsing fails or the URL is hostless.
#[verifier::external_body]
pub(crate) fn host_of(s: &str) -> (r: Option<String>)
    ensures
        r is Some <==> url_host(s@) is Some,
        r matches Some(h) ==> url_host(s@) == Some(h@),
{
    match url::Url::parse(s) {
        Ok(u) => u.host_str().map(|h| h.to_string()),
        Err(_) => None,
    }
}

/// The normalized target: the percent-decoded URL text and its host.
#[derive(Debug)]
pub struct Target {
    pub url: String,
    pub host: String,
}

/// Percent-decode the raw target URL and extract its host.  Fails — fatally
/// for the whole run — exactly when the decoded text is not a parseable
/// absolute URL with a host.
pub fn normalize_target(raw: &String) -> (r: Result<Target, ScanError>)
    ensures
        r is Ok <==> url_host(percent_decoded(raw@)) is Some,
        r matches Ok(t) ==> t.url@ == percent_decoded(raw@) && url_host(percent_decoded(raw@))
            == Some(t.host@),
        r matches Err(e) ==> e == ScanError::InvalidTarget,
{
    let decoded = percent_decode(raw.as_str());
    match host_of(decoded.as_str()) {
        Some(h) => Ok(Target { url: decoded, host: h }),
        None => Err(ScanError::InvalidTarget),
    }
}

/// Check that a string parses as a URL, as a standalone target validator.
pub fn validate_url(url: &String) -> (r: Result<(), ScanError>)
    ensures
        r is Ok <==> url_parses(url@),
        r matches Err(e) ==> e == ScanError::InvalidTarget,
{
    if parses_as_url(url.as_str()) {
        Ok(())
    } else {
        Err(ScanError::InvalidTarget)
    }
}

/// Check that a proxy string parses as a URL.
pub fn validate_proxy(proxy: &String) -> (r: Result<(), ScanError>)
    ensures
        r is Ok <==> url_parses(proxy@),
        r matches Err(e) ==> e == ScanError::InvalidProxy,
{
    if parses_as_url(proxy.as_str()) {
        Ok(())
    } else {
        Err(ScanError::InvalidProxy)
    }
}

} // verus!
