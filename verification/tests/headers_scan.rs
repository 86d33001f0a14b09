use cors_probe::classify::Verdict;
use cors_probe::errors::ScanError;
use cors_probe::headers::{
    apply_custom_headers, default_headers, parse_header_line, HeaderLineParse, HeaderList,
};
use cors_probe::scan::Scan;
use cors_probe::text::{parse_u64, split_text_lines, trim_text, unescape_text};

fn s(text: &str) -> String {
    text.to_string()
}

#[test]
fn default_headers_hold_browser_identity() {
    let h = default_headers();
    assert_eq!(h.len(), 2);
    assert_eq!(
        h.lookup(&s("user-agent")).unwrap(),
        "Mozilla/5.0 (X11; Ubuntu; Linux x86_64; rv:122.0) Gecko/20100101 Firefox/122.0"
    );
    assert_eq!(
        h.lookup(&s("accept")).unwrap(),
        "text/html,application/xhtml+xml,application/xml;q=0.9,image/avif,image/webp,*/*;q=0.8"
    );
}

#[test]
fn insert_replaces_in_place() {
    let mut h = HeaderList::new();
    h.insert(s("x-a"), s("1"));
    h.insert(s("x-b"), s("2"));
    h.insert(s("x-a"), s("3"));
    assert_eq!(h.len(), 2);
    assert_eq!(h.lookup(&s("x-a")).unwrap(), "3");
    assert_eq!(h.lookup(&s("x-b")).unwrap(), "2");
    assert!(h.lookup(&s("x-c")).is_none());
}

#[test]
fn parse_header_line_trims_and_lowercases() {
    match parse_header_line(&s("  X-Test :  some value  ")) {
        HeaderLineParse::Parsed(h) => {
            assert_eq!(h.name, "x-test");
            assert_eq!(h.value, "some value");
        }
        _ => panic!("expected a parsed header"),
    }
}

#[test]
fn parse_header_line_splits_at_first_colon() {
    match parse_header_line(&s("X-Url: http://example.com:8080")) {
        HeaderLineParse::Parsed(h) => {
            assert_eq!(h.name, "x-url");
            assert_eq!(h.value, "http://example.com:8080");
        }
        _ => panic!("expected a parsed header"),
    }
}

#[test]
fn parse_header_line_failure_modes() {
    assert!(matches!(parse_header_line(&s("no colon here")), HeaderLineParse::NoColon));
    assert!(matches!(parse_header_line(&s("bad name: x")), HeaderLineParse::BadName));
    assert!(matches!(parse_header_line(&s(": empty name")), HeaderLineParse::BadName));
    assert!(matches!(
        parse_header_line(&s("x-test: bad\u{1}value")),
        HeaderLineParse::BadValue
    ));
}

#[test]
fn apply_custom_headers_merges_and_overrides() {
    let mut h = default_headers();
    let skipped = apply_custom_headers(&mut h, "User-Agent: custom-agent\nX-Extra: 1");
    assert_eq!(skipped, 0);
    assert_eq!(h.lookup(&s("user-agent")).unwrap(), "custom-agent");
    assert_eq!(h.lookup(&s("x-extra")).unwrap(), "1");
    assert_eq!(h.len(), 3);
}

#[test]
fn apply_custom_headers_unescapes_literal_newlines() {
    let mut h = HeaderList::new();
    apply_custom_headers(&mut h, "X-One: 1\\nX-Two: 2");
    assert_eq!(h.lookup(&s("x-one")).unwrap(), "1");
    assert_eq!(h.lookup(&s("x-two")).unwrap(), "2");
}

#[test]
fn apply_custom_headers_skips_bad_lines() {
    let mut h = HeaderList::new();
    let skipped = apply_custom_headers(&mut h, "good: 1\nbad name: 2\nalso-good: 3");
    assert_eq!(skipped, 1);
    assert_eq!(h.len(), 2);
    assert_eq!(h.lookup(&s("good")).unwrap(), "1");
    assert_eq!(h.lookup(&s("also-good")).unwrap(), "3");
}

#[test]
fn apply_custom_headers_does_not_count_lines_without_colon() {
    let mut h = HeaderList::new();
    let skipped = apply_custom_headers(&mut h, "no colon line\nX-Ok: 1");
    assert_eq!(skipped, 0);
    assert_eq!(h.len(), 1);
    assert_eq!(h.lookup(&s("x-ok")).unwrap(), "1");
}

#[test]
fn text_helpers_behave_like_std() {
    assert_eq!(trim_text("  a b  "), "a b");
    assert_eq!(trim_text("\t\r\n"), "");
    assert_eq!(unescape_text("a\\nb"), "a\nb");
    assert_eq!(unescape_text("plain"), "plain");
    assert_eq!(split_text_lines("a\nb\r\nc"), vec!["a", "b", "c"]);
    assert_eq!(split_text_lines("a\n"), vec!["a"]);
    assert_eq!(parse_u64("42"), Some(42));
    assert_eq!(parse_u64("4 2"), None);
}

fn scan_for(url: &str, custom: Option<&str>) -> Result<Scan, ScanError> {
    let url = s(url);
    let method = s("GET");
    let custom_owned = custom.map(s);
    let thirdparty = s("http://example-thirdparty.com");
    let invalid = s("http://example-invalid-origin.com");
    Scan::new(
        &url,
        &method,
        custom_owned.as_ref(),
        None,
        None,
        None,
        &thirdparty,
        &invalid,
    )
}

#[test]
fn fatal_unparseable_target_aborts_before_any_probe() {
    let r = scan_for("not a url", None);
    assert_eq!(r.unwrap_err(), ScanError::InvalidTarget);
}

#[test]
fn per_strategy_origin_always_wins_over_custom_origin() {
    let mut scan = scan_for(
        "http://example.com",
        Some("Origin: http://should-be-overridden.com"),
    )
    .unwrap();
    let mut seen = 0;
    while !scan.finished() {
        let candidate = scan.current_strategy().value.clone();
        let headers = scan.headers_for_current();
        assert_eq!(headers.lookup(&s("origin")).unwrap(), candidate);
        assert_ne!(
            headers.lookup(&s("origin")).unwrap(),
            "http://should-be-overridden.com"
        );
        scan.skip_failed();
        seen += 1;
    }
    assert_eq!(seen, 15);
}

#[test]
fn one_malformed_custom_line_does_not_stop_the_run() {
    let mut scan = scan_for("http://example.com", Some("missing colon line\nX-Ok: 1")).unwrap();
    let mut probed = 0;
    while !scan.finished() {
        let v = scan.record_response(200, Vec::new(), s(""), s(""));
        assert_eq!(v, Verdict::PotentiallyVulnerableEmptyAcao);
        probed += 1;
    }
    assert_eq!(probed, 15);
    assert_eq!(scan.outcomes.len(), 15);
    assert_eq!(scan.config.headers.lookup(&s("x-ok")).unwrap(), "1");
}

#[test]
fn scan_records_reflected_origin_as_vulnerable() {
    let mut scan = scan_for("http://example.com", None).unwrap();
    // Simulate a server that reflects every Origin and allows credentials.
    let mut verdicts = Vec::new();
    while !scan.finished() {
        let candidate = scan.current_strategy().value.clone();
        let v = scan.record_response(200, Vec::new(), candidate, s("true"));
        verdicts.push(v);
    }
    assert_eq!(verdicts.len(), 15);
    assert!(verdicts.iter().all(|v| *v == Verdict::Vulnerable));
    let last = scan.outcomes.last().unwrap();
    assert_eq!(last.strategy_name, "HTTP Allowance Test");
    assert_eq!(last.origin_value, "http://example.com");
    assert_eq!(last.http_status, 200);
    assert_eq!(last.verdict, Verdict::Vulnerable);
}

#[test]
fn scan_runs_are_idempotent_for_static_responses() {
    let run = |acao: &str, acac: &str| -> Vec<Verdict> {
        let mut scan = scan_for("http://example.com", None).unwrap();
        let mut verdicts = Vec::new();
        while !scan.finished() {
            verdicts.push(scan.record_response(200, Vec::new(), s(acao), s(acac)));
        }
        verdicts
    };
    assert_eq!(run("http://example.com", "true"), run("http://example.com", "true"));
    assert_eq!(run("*", ""), run("*", ""));
}

#[test]
fn scan_setup_rejects_bad_method_and_cookie_and_proxy() {
    let url = s("http://example.com");
    let thirdparty = s("http://t.example");
    let invalid = s("http://i.example");
    let bad_method = Scan::new(
        &url,
        &s("DELETE"),
        None,
        None,
        None,
        None,
        &thirdparty,
        &invalid,
    );
    assert_eq!(bad_method.unwrap_err(), ScanError::InvalidMethod);
    let bad_cookie_value = s("a\u{1}b");
    let bad_cookie = Scan::new(
        &url,
        &s("GET"),
        None,
        Some(&bad_cookie_value),
        None,
        None,
        &thirdparty,
        &invalid,
    );
    assert_eq!(bad_cookie.unwrap_err(), ScanError::InvalidCookie);
    let bad_proxy_value = s("::nope::");
    let bad_proxy = Scan::new(
        &url,
        &s("GET"),
        None,
        None,
        Some(&bad_proxy_value),
        None,
        &thirdparty,
        &invalid,
    );
    assert_eq!(bad_proxy.unwrap_err(), ScanError::InvalidProxy);
}

#[test]
fn scan_cookie_joins_the_header_set() {
    let url = s("http://example.com");
    let cookie = s("session=abc");
    let thirdparty = s("http://t.example");
    let invalid = s("http://i.example");
    let scan = Scan::new(
        &url,
        &s("POST"),
        None,
        Some(&cookie),
        None,
        Some(250),
        &thirdparty,
        &invalid,
    )
    .unwrap();
    assert_eq!(scan.config.headers.lookup(&s("cookie")).unwrap(), "session=abc");
    assert_eq!(scan.config.delay_ms, Some(250));
}
