use openrust_core::webfetch::{
    accept_for_format, check_parsed_url, content_type_error, fetch_output, fetch_timeout,
    is_cloudflare_challenge, is_text_content_type, status_error, strip_html, validate_url,
    fetch_on_response, fetch_start, FetchStep, ParsedUrl,
};

#[test]
fn strips_tags() {
    let t = strip_html("<html><body><p>Hello</p><p>World</p></body></html>");
    assert!(t.contains("Hello") && t.contains("World"));
}

#[test]
fn decodes_numeric_entities() {
    let t = strip_html("<p>It&#39;s a test &#x27;ok&#x27;</p>");
    assert!(t.contains("It's a test 'ok'"));
}

#[test]
fn removes_script() {
    let t = strip_html("<script>alert(1)</script><p>Safe</p>");
    assert!(!t.contains("alert") && t.contains("Safe"));
}

#[test]
fn validates_https_urls() {
    assert!(validate_url("https://example.com").is_ok());
    assert!(validate_url("http://example.com/path").is_ok());
}

#[test]
fn rejects_non_http_schemes() {
    assert!(validate_url("file:///etc/passwd").is_err());
    assert!(validate_url("ftp://example.com").is_err());
    assert!(validate_url("not-a-url").is_err());
}

#[test]
fn rejects_private_addresses() {
    assert!(validate_url("http://localhost:8080").is_err());
    assert!(validate_url("http://127.0.0.1").is_err());
    assert!(validate_url("http://192.168.1.1").is_err());
}

#[test]
fn strip_html_exact_output() {
    assert_eq!(strip_html("<p>one</p><p>two</p>"), "one\ntwo");
    assert_eq!(strip_html("a &amp; b &lt;c&gt; &quot;d&quot; &apos;e&apos;"), "a & b <c> \"d\" 'e'");
    assert_eq!(strip_html("<style>p{}</style>  x  <br>  y "), "x\ny");
    assert_eq!(strip_html("&#65;&#x42;&#+67;&#zz; &#9999999999;"), "ABC&#zz; &#9999999999;");
    assert_eq!(strip_html("<SCRIPT>bad()</SCRIPT>ok"), "ok");
}

#[test]
fn private_ranges_and_messages() {
    assert_eq!(
        validate_url("http://172.20.0.5/x"),
        Err("Internal/private address '172.20.0.5' is not allowed.".to_string())
    );
    assert!(validate_url("http://172.32.0.5/x").is_ok());
    assert!(validate_url("http://10.1.2.3").is_err());
    assert!(validate_url("http://169.254.1.1").is_err());
    assert!(validate_url("http://0.0.0.0").is_err());
    assert!(validate_url("http://[::1]/").is_err());
    assert!(validate_url("https://LOCALHOST/").is_err());
    assert_eq!(
        validate_url("ftp://example.com"),
        Err("Unsupported URL scheme 'ftp'. Only http/https allowed.".to_string())
    );
    let e = validate_url("not-a-url").unwrap_err();
    assert!(e.starts_with("Invalid URL: "));
}

#[test]
fn check_parsed_url_on_given_parts() {
    let ok = ParsedUrl { scheme: "https".to_string(), host: Some("Example.com".to_string()) };
    assert_eq!(check_parsed_url(Ok(ok)), Ok(()));
    let private = ParsedUrl { scheme: "http".to_string(), host: Some("LocalHost".to_string()) };
    assert_eq!(
        check_parsed_url(Ok(private)),
        Err("Internal/private address 'LocalHost' is not allowed.".to_string())
    );
    let no_host = ParsedUrl { scheme: "http".to_string(), host: None };
    assert_eq!(check_parsed_url(Ok(no_host)), Ok(()));
    assert_eq!(
        check_parsed_url(Err("relative URL without a base".to_string())),
        Err("Invalid URL: relative URL without a base".to_string())
    );
}

#[test]
fn response_judgement() {
    assert_eq!(fetch_timeout(None), 30);
    assert_eq!(fetch_timeout(Some(500)), 120);
    assert_eq!(fetch_timeout(Some(3)), 3);
    assert_eq!(accept_for_format("nope"), "*/*");
    assert!(accept_for_format("html").starts_with("text/html;q=1.0"));
    assert!(is_cloudflare_challenge(403, Some("challenge")));
    assert!(!is_cloudflare_challenge(403, None));
    assert!(!is_cloudflare_challenge(200, Some("challenge")));
    assert_eq!(status_error("u", 200, None, false), None);
    assert_eq!(status_error("u", 404, None, false), Some("HTTP 404 fetching u".to_string()));
    assert_eq!(
        status_error("u", 301, Some("v"), false),
        Some("Redirect not followed (SSRF protection): u → v. Use the direct URL if trusted.".to_string())
    );
    assert_eq!(
        status_error("u", 403, None, true),
        Some("Blocked by Cloudflare bot detection: u. Try a different source.".to_string())
    );
    assert!(is_text_content_type("Text/HTML; charset=utf-8"));
    assert!(is_text_content_type("application/json"));
    assert!(!is_text_content_type("image/png"));
    assert_eq!(content_type_error("", "u"), None);
    assert_eq!(
        content_type_error("image/png", "u"),
        Some("Non-text content type 'image/png' not supported for u. Use bash with curl for binary downloads.".to_string())
    );
}

#[test]
fn output_is_cut_past_the_limit() {
    let (out, cut) = fetch_output("<p>hi</p>", "markdown");
    assert_eq!((out.as_str(), cut), ("hi", false));
    let (raw, cut) = fetch_output("<p>hi</p>", "html");
    assert_eq!((raw.as_str(), cut), ("<p>hi</p>", false));
    let big = "é".repeat(60_000);
    let (out, cut) = fetch_output(&big, "html");
    assert!(cut);
    assert_eq!(out, format!("{}...\n\n[truncated at 100K / 120000 total]", "é".repeat(50_000)));
}

#[test]
fn fetch_starts_as_a_browser_or_refuses() {
    assert!(matches!(fetch_start("https://example.com/"), FetchStep::Send { honest_agent: false }));
    match fetch_start("ftp://example.com/") {
        FetchStep::Fail(m) => assert!(m.contains("Unsupported URL scheme 'ftp'")),
        _ => panic!("ftp must be refused"),
    }
    match fetch_start("http://127.0.0.1/") {
        FetchStep::Fail(m) => assert!(m.contains("Internal/private address")),
        _ => panic!("loopback must be refused"),
    }
}

#[test]
fn fetch_retries_a_challenge_once_with_its_own_agent() {
    let u = "https://example.com/";
    assert!(matches!(
        fetch_on_response(u, false, 403, Some("challenge"), None, "text/html"),
        FetchStep::Send { honest_agent: true }
    ));
    match fetch_on_response(u, true, 403, Some("challenge"), None, "text/html") {
        FetchStep::Fail(m) => assert_eq!(m, "Blocked by Cloudflare bot detection: https://example.com/. Try a different source."),
        _ => panic!("second challenge must fail"),
    }
}

#[test]
fn fetch_judges_status_and_content_type() {
    let u = "https://example.com/";
    match fetch_on_response(u, false, 301, None, Some("https://other/"), "text/html") {
        FetchStep::Fail(m) => assert_eq!(m, "Redirect not followed (SSRF protection): https://example.com/ → https://other/. Use the direct URL if trusted."),
        _ => panic!("redirect must fail"),
    }
    match fetch_on_response(u, false, 404, None, None, "text/html") {
        FetchStep::Fail(m) => assert_eq!(m, "HTTP 404 fetching https://example.com/"),
        _ => panic!("404 must fail"),
    }
    match fetch_on_response(u, false, 200, None, None, "image/png") {
        FetchStep::Fail(m) => assert!(m.starts_with("Non-text content type 'image/png'")),
        _ => panic!("image must fail"),
    }
    assert!(matches!(fetch_on_response(u, false, 200, None, None, "Text/HTML; charset=utf-8"), FetchStep::ReadBody));
    assert!(matches!(fetch_on_response(u, true, 200, None, None, ""), FetchStep::ReadBody));
}
