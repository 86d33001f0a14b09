use cors_probe::classify::{classify, Verdict};
use cors_probe::config::{validate_cookie, validate_headers, validate_method, validate_rate_limit, Method};
use cors_probe::errors::ScanError;
use cors_probe::strategies::generate_strategies;
use cors_probe::target::{normalize_target, validate_proxy, validate_url};

fn s(text: &str) -> String {
    text.to_string()
}

#[test]
fn strategy_table_for_example_com() {
    let url = s("http://example.com");
    let host = s("example.com");
    let thirdparty = s("http://example-thirdparty.com");
    let invalid = s("http://example-invalid-origin.com");
    let table = generate_strategies(&url, &host, &thirdparty, &invalid);
    assert_eq!(table.len(), 15);
    let expected: Vec<(&str, &str)> = vec![
        ("Reflected Origin", "http://example.com"),
        ("Trusted Subdomains", "http://subdomain.example.com"),
        ("Regexp bypass", "http://example.com.attacker.com"),
        ("Null Origin", "null"),
        ("Breaking TLS", "http://example.com"),
        ("Advanced Regexp bypass", "http://example.com.attacker.com"),
        ("Pre-domain Bypass", "http://attacker.com.example.com"),
        ("Post-domain Bypass", "http://example.com.attacker.com"),
        ("Backtick Bypass", "http://`example.com`"),
        ("Unescaped Dot Bypass", "http://example.com.com"),
        ("Underscore Bypass", "http://example.com_com"),
        ("Invalid Value", "http://example-invalid-origin.com"),
        ("Wildcard Value", "*"),
        ("Third-party Allowance Test", "http://example-thirdparty.com"),
        ("HTTP Allowance Test", "http://example.com"),
    ];
    for (i, (name, value)) in expected.iter().enumerate() {
        assert_eq!(table[i].name, *name, "name of entry {}", i);
        assert_eq!(table[i].value, *value, "value of entry {}", i);
    }
    assert_eq!(table[2].value, table[5].value);
    assert_eq!(table[5].value, table[7].value);
    assert_eq!(table[4].value, table[14].value);
}

#[test]
fn classifier_reflected_with_credentials_is_vulnerable() {
    let v = classify(&s("http://evil.com"), &s("http://evil.com"), &s("true"));
    assert_eq!(v, Verdict::Vulnerable);
}

#[test]
fn classifier_reflected_without_credentials() {
    let v = classify(&s("http://evil.com"), &s("http://evil.com"), &s(""));
    assert_eq!(v, Verdict::PotentiallyVulnerableReflected);
}

#[test]
fn classifier_empty_acao() {
    let v = classify(&s("http://evil.com"), &s(""), &s(""));
    assert_eq!(v, Verdict::PotentiallyVulnerableEmptyAcao);
}

#[test]
fn classifier_fixed_other_origin_not_vulnerable() {
    let v = classify(&s("http://evil.com"), &s("https://trusted.com"), &s(""));
    assert_eq!(v, Verdict::NotVulnerable);
}

#[test]
fn classifier_is_case_sensitive_and_exact() {
    let v = classify(&s("http://evil.com"), &s("http://EVIL.com"), &s("true"));
    assert_eq!(v, Verdict::NotVulnerable);
    let v = classify(&s("http://evil.com"), &s("http://evil.com"), &s("True"));
    assert_eq!(v, Verdict::PotentiallyVulnerableReflected);
}

#[test]
fn classifier_deterministic_across_calls() {
    let first = classify(&s("http://evil.com"), &s("*"), &s("true"));
    let second = classify(&s("http://evil.com"), &s("*"), &s("true"));
    assert_eq!(first, second);
}

#[test]
fn validate_method_accepts_get_and_post_any_case() {
    assert_eq!(validate_method(&s("GET")).unwrap(), Method::Get);
    assert_eq!(validate_method(&s("get")).unwrap(), Method::Get);
    assert_eq!(validate_method(&s("PoSt")).unwrap(), Method::Post);
    assert_eq!(validate_method(&s("POST")).unwrap(), Method::Post);
}

#[test]
fn validate_method_rejects_anything_else() {
    assert_eq!(validate_method(&s("PUT")).unwrap_err(), ScanError::InvalidMethod);
    assert_eq!(validate_method(&s("")).unwrap_err(), ScanError::InvalidMethod);
    assert_eq!(validate_method(&s("GETT")).unwrap_err(), ScanError::InvalidMethod);
}

#[test]
fn validate_cookie_rejects_newline() {
    assert!(validate_cookie(&s("session=abc; theme=dark")).is_ok());
    assert_eq!(
        validate_cookie(&s("session=abc\ninjected")).unwrap_err(),
        ScanError::InvalidCookie
    );
}

#[test]
fn validate_rate_limit_parses_decimals() {
    assert_eq!(validate_rate_limit(&s("123")).unwrap(), 123);
    assert_eq!(validate_rate_limit(&s("+5")).unwrap(), 5);
    assert_eq!(validate_rate_limit(&s("0")).unwrap(), 0);
    assert_eq!(validate_rate_limit(&s("18446744073709551615")).unwrap(), u64::MAX);
}

#[test]
fn validate_rate_limit_rejects_bad_input() {
    assert_eq!(validate_rate_limit(&s("")).unwrap_err(), ScanError::InvalidRateLimit);
    assert_eq!(validate_rate_limit(&s("abc")).unwrap_err(), ScanError::InvalidRateLimit);
    assert_eq!(validate_rate_limit(&s("12x")).unwrap_err(), ScanError::InvalidRateLimit);
    assert_eq!(validate_rate_limit(&s("-1")).unwrap_err(), ScanError::InvalidRateLimit);
    assert_eq!(
        validate_rate_limit(&s("18446744073709551616")).unwrap_err(),
        ScanError::InvalidRateLimit
    );
}

#[test]
fn validate_headers_accepts_strict_lines() {
    assert!(validate_headers(&s("X-Test: value")).is_ok());
    assert!(validate_headers(&s("X-One: 1\nX-Two: 2")).is_ok());
}

#[test]
fn validate_headers_returns_first_bad_line() {
    assert_eq!(
        validate_headers(&s("nocolonhere")).unwrap_err(),
        "Invalid header format: nocolonhere"
    );
    assert_eq!(
        validate_headers(&s("X-Ok: fine\nbadline")).unwrap_err(),
        "Invalid header format: badline"
    );
    // A colon without the mandatory space fails the strict shape.
    assert_eq!(
        validate_headers(&s("X-Test:value")).unwrap_err(),
        "Invalid header format: X-Test:value"
    );
}

#[test]
fn validate_url_and_proxy_follow_the_parser() {
    assert!(validate_url(&s("http://example.com")).is_ok());
    assert_eq!(validate_url(&s("not a url")).unwrap_err(), ScanError::InvalidTarget);
    assert!(validate_proxy(&s("http://127.0.0.1:8080")).is_ok());
    assert_eq!(validate_proxy(&s("::nope::")).unwrap_err(), ScanError::InvalidProxy);
}

#[test]
fn normalize_target_decodes_and_extracts_host() {
    let t = normalize_target(&s("https%3A%2F%2Fexample.com%2Fpath")).unwrap();
    assert_eq!(t.url, "https://example.com/path");
    assert_eq!(t.host, "example.com");
}

#[test]
fn normalize_target_plain_url() {
    let t = normalize_target(&s("http://sub.example.org:8080/x?y=1")).unwrap();
    assert_eq!(t.host, "sub.example.org");
}

#[test]
fn normalize_target_rejects_garbage() {
    assert_eq!(normalize_target(&s("not a url")).unwrap_err(), ScanError::InvalidTarget);
}

#[test]
fn normalize_target_rejects_hostless_url() {
    assert_eq!(normalize_target(&s("mailto:user@example.com")).unwrap_err(), ScanError::InvalidTarget);
}

#[test]
fn verdict_labels_are_exact() {
    assert_eq!(Verdict::Vulnerable.label(), "[Vulnerable]");
    assert_eq!(
        Verdict::PotentiallyVulnerableReflected.label(),
        "[Potentially Vulnerable] (Reflected Origin but without credentials)"
    );
    assert_eq!(
        Verdict::PotentiallyVulnerableEmptyAcao.label(),
        "[Potentially Vulnerable] (Access-Control-Allow-Origin header is empty)"
    );
    assert_eq!(Verdict::NotVulnerable.label(), "[Not Vulnerable]");
}

#[test]
fn error_messages_are_distinct() {
    let msgs = vec![
        ScanError::InvalidTarget.message(),
        ScanError::InvalidMethod.message(),
        ScanError::InvalidCookie.message(),
        ScanError::InvalidProxy.message(),
        ScanError::InvalidRateLimit.message(),
        ScanError::TransportInitFailed.message(),
    ];
    for m in &msgs {
        assert!(!m.is_empty());
    }
    for i in 0..msgs.len() {
        for j in (i + 1)..msgs.len() {
            assert_ne!(msgs[i], msgs[j]);
        }
    }
}
