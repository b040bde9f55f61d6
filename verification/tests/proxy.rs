use webflow_proxy::headers::{filter_request_headers, filter_response_headers, Header};
use webflow_proxy::pipeline::{
    build_target_url, finish_response, plan_request, redirect_status, ProxyConfig, ProxyError,
    RoutePlan,
};
use webflow_proxy::redirect::{check_redirect, RedirectMode};
use webflow_proxy::rewrite::{rewrite_body_if_html, rewrite_markers};

fn bv(s: &str) -> Vec<u8> {
    s.as_bytes().to_vec()
}

fn h(name: &str, value: &str) -> Header {
    Header {
        name: bv(name),
        value: bv(value),
    }
}

fn names(hs: &[Header]) -> Vec<String> {
    hs.iter()
        .map(|x| String::from_utf8(x.name.clone()).unwrap())
        .collect()
}

#[test]
fn target_url_with_query() {
    let url = build_target_url(
        b"https://site.webflow.io",
        b"/a/b",
        &Some(bv("x=1&y=2")),
    );
    assert_eq!(url, bv("https://site.webflow.io/a/b?x=1&y=2"));
}

#[test]
fn target_url_without_query() {
    let url = build_target_url(b"https://site.webflow.io", b"/about", &None);
    assert_eq!(url, bv("https://site.webflow.io/about"));
}

#[test]
fn target_url_keeps_path_segments() {
    let url = build_target_url(b"http://origin", b"/a/../b//c", &None);
    assert_eq!(url, bv("http://origin/a/../b//c"));
}

#[test]
fn request_filter_drops_blocked_names_case_insensitively() {
    let hs = vec![
        h("Host", "example.com"),
        h("cookie", "k=v"),
        h("Connection", "keep-alive"),
        h("TRANSFER-ENCODING", "chunked"),
        h("Content-Length", "42"),
        h("authorization", "Bearer abc123"),
        h("content-type", "text/plain"),
    ];
    let kept = filter_request_headers(hs);
    assert_eq!(names(&kept), vec!["cookie", "authorization", "content-type"]);
    assert_eq!(kept[0].value, bv("k=v"));
}

#[test]
fn response_filter_drops_blocked_names() {
    let hs = vec![
        h("Transfer-Encoding", "chunked"),
        h("cache-control", "max-age=60"),
        h("content-length", "10"),
        h("CONNECTION", "close"),
        h("Content-Encoding", "gzip"),
        h("x-custom", "1"),
        h("content-type", "text/html"),
    ];
    let kept = filter_response_headers(hs);
    assert_eq!(names(&kept), vec!["cache-control", "x-custom", "content-type"]);
}

#[test]
fn redirect_to_www_preserves_path_and_query() {
    // host=example.com, mode=WwwCanonical, path=/pricing?a=1
    let r = check_redirect(
        b"example.com",
        b"/pricing",
        &Some(bv("a=1")),
        RedirectMode::WwwCanonical,
    );
    assert_eq!(r, Some(bv("https://www.example.com/pricing?a=1")));
    assert_eq!(redirect_status(), 301);
}

#[test]
fn redirect_to_root_on_www_host() {
    // host=www.example.com, mode=RootCanonical, path=/
    let r = check_redirect(b"www.example.com", b"/", &None, RedirectMode::RootCanonical);
    assert_eq!(r, Some(bv("https://example.com/")));
}

#[test]
fn no_redirect_when_host_is_canonical() {
    assert_eq!(
        check_redirect(b"www.example.com", b"/", &None, RedirectMode::WwwCanonical),
        None
    );
    assert_eq!(
        check_redirect(b"example.com", b"/", &None, RedirectMode::RootCanonical),
        None
    );
    assert_eq!(
        check_redirect(b"example.com", b"/", &None, RedirectMode::NoRedirect),
        None
    );
    assert_eq!(
        check_redirect(b"www.example.com", b"/", &None, RedirectMode::NoRedirect),
        None
    );
}

#[test]
fn redirect_strips_port_from_host() {
    let r = check_redirect(
        b"example.com:3000",
        b"/x",
        &None,
        RedirectMode::WwwCanonical,
    );
    assert_eq!(r, Some(bv("https://www.example.com/x")));
}

#[test]
fn redirect_target_is_a_fixed_point() {
    // Applying the resolver's target host as the new inbound host yields no
    // further redirect.
    let r = check_redirect(b"example.com", b"/p", &None, RedirectMode::WwwCanonical);
    assert_eq!(r, Some(bv("https://www.example.com/p")));
    assert_eq!(
        check_redirect(b"www.example.com", b"/p", &None, RedirectMode::WwwCanonical),
        None
    );
    let r2 = check_redirect(b"www.shop.example.com", b"/p", &None, RedirectMode::RootCanonical);
    assert_eq!(r2, Some(bv("https://shop.example.com/p")));
    assert_eq!(
        check_redirect(b"shop.example.com", b"/p", &None, RedirectMode::RootCanonical),
        None
    );
}

#[test]
fn plan_request_redirects_before_proxying() {
    let config = ProxyConfig {
        origin: bv("https://site.webflow.io"),
        prod_domain: bv("prod.example.com"),
        mode: RedirectMode::WwwCanonical,
    };
    let plan = plan_request(
        &config,
        b"example.com",
        b"/pricing",
        &Some(bv("a=1")),
        vec![h("cookie", "k=v")],
        Vec::new(),
    );
    match plan {
        RoutePlan::Redirect(url) => {
            assert_eq!(url, bv("https://www.example.com/pricing?a=1"))
        }
        RoutePlan::Forward(_) => panic!("expected a redirect"),
    }
}

#[test]
fn plan_request_forwards_with_filtered_headers() {
    let config = ProxyConfig {
        origin: bv("https://site.webflow.io"),
        prod_domain: bv("prod.example.com"),
        mode: RedirectMode::WwwCanonical,
    };
    let plan = plan_request(
        &config,
        b"www.example.com",
        b"/pricing",
        &Some(bv("a=1")),
        vec![h("Host", "www.example.com"), h("cookie", "k=v")],
        bv("payload"),
    );
    match plan {
        RoutePlan::Forward(o) => {
            assert_eq!(o.target_url, bv("https://site.webflow.io/pricing?a=1"));
            assert_eq!(names(&o.headers), vec!["cookie"]);
            assert_eq!(o.body, bv("payload"));
        }
        RoutePlan::Redirect(_) => panic!("expected a forward"),
    }
}

#[test]
fn html_response_gets_marker_rewritten() {
    // GET /about: upstream 200, content-type text/html, marker in the body.
    let resp = finish_response(
        200,
        vec![
            h("content-type", "text/html"),
            h("content-length", "64"),
            h("x-served-by", "edge"),
        ],
        bv("<html><body data-wf-domain=\"site.webflow.io\">Hi</body></html>"),
        b"prod.example.com",
    );
    assert_eq!(resp.status, 200);
    assert_eq!(names(&resp.headers), vec!["content-type", "x-served-by"]);
    assert_eq!(
        resp.body,
        bv("<html><body data-wf-domain=\"prod.example.com\">Hi</body></html>")
    );
}

#[test]
fn html_detection_tolerates_charset_suffix() {
    let resp = finish_response(
        200,
        vec![h("content-type", "text/html; charset=utf-8")],
        bv("data-wf-domain=\"a.webflow.io\""),
        b"prod.example.com",
    );
    assert_eq!(resp.body, bv("data-wf-domain=\"prod.example.com\""));
}

#[test]
fn content_type_lookup_is_case_insensitive() {
    let resp = finish_response(
        200,
        vec![h("Content-Type", "text/html")],
        bv("data-wf-domain=\"a.webflow.io\""),
        b"prod.example.com",
    );
    assert_eq!(resp.body, bv("data-wf-domain=\"prod.example.com\""));
}

#[test]
fn non_html_body_passes_through_byte_for_byte() {
    let mut body = bv("data-wf-domain=\"a.webflow.io\"");
    body.push(0xFF); // invalid UTF-8: untouched because no decode is attempted
    let resp = finish_response(
        200,
        vec![h("content-type", "application/json")],
        body.clone(),
        b"prod.example.com",
    );
    assert_eq!(resp.body, body);
}

#[test]
fn missing_content_type_means_no_rewrite() {
    let body = bv("data-wf-domain=\"a.webflow.io\"");
    let resp = finish_response(204, Vec::new(), body.clone(), b"prod.example.com");
    assert_eq!(resp.status, 204);
    assert!(resp.headers.is_empty());
    assert_eq!(resp.body, body);
}

#[test]
fn rewrite_replaces_single_occurrence_only_there() {
    let out = rewrite_markers(
        b"before data-wf-domain=\"foo.webflow.io\" after",
        b"prod.example.com",
    );
    assert_eq!(out, bv("before data-wf-domain=\"prod.example.com\" after"));
}

#[test]
fn rewrite_replaces_every_occurrence() {
    let out = rewrite_markers(
        b"<a data-wf-domain=\"x.webflow.io\"><b data-wf-domain=\"y.webflow.io\">",
        b"prod.example.com",
    );
    assert_eq!(
        out,
        bv("<a data-wf-domain=\"prod.example.com\"><b data-wf-domain=\"prod.example.com\">")
    );
}

#[test]
fn rewrite_replaces_empty_marker_value() {
    let out = rewrite_markers(b"data-wf-domain=\"\"", b"prod.example.com");
    assert_eq!(out, bv("data-wf-domain=\"prod.example.com\""));
}

#[test]
fn unterminated_marker_is_left_alone() {
    let out = rewrite_markers(b"data-wf-domain=\"no closing quote", b"prod.example.com");
    assert_eq!(out, bv("data-wf-domain=\"no closing quote"));
}

#[test]
fn rewrite_of_markerless_body_changes_nothing() {
    let out = rewrite_markers(b"<html><body>Hi</body></html>", b"prod.example.com");
    assert_eq!(out, bv("<html><body>Hi</body></html>"));
}

#[test]
fn rewrite_of_empty_body_is_empty() {
    let out = rewrite_markers(b"", b"prod.example.com");
    assert_eq!(out, Vec::<u8>::new());
}

#[test]
fn html_rewrite_normalizes_invalid_utf8() {
    // An invalid byte in an HTML body becomes the replacement character, as
    // lossy decoding prescribes; the marker is still rewritten.
    let mut body = bv("data-wf-domain=\"a.webflow.io\"");
    body.push(0xFF);
    let out = rewrite_body_if_html(b"text/html", body, b"prod.example.com");
    let mut expected = bv("data-wf-domain=\"prod.example.com\"");
    expected.extend_from_slice("\u{FFFD}".as_bytes());
    assert_eq!(out, expected);
}

#[test]
fn gateway_error_maps_to_502() {
    // Upstream unreachable: the client sees a gateway error and the process
    // keeps serving further requests.
    assert_eq!(ProxyError::Upstream.status_code(), 502);
    let r = check_redirect(b"example.com", b"/", &None, RedirectMode::WwwCanonical);
    assert_eq!(r, Some(bv("https://www.example.com/")));
}

#[test]
fn unreadable_client_body_maps_to_400() {
    assert_eq!(ProxyError::ClientBody.status_code(), 400);
}

#[test]
fn mode_tokens_parse_exactly() {
    assert_eq!(
        RedirectMode::parse(b"www"),
        Some(RedirectMode::WwwCanonical)
    );
    assert_eq!(
        RedirectMode::parse(b"root"),
        Some(RedirectMode::RootCanonical)
    );
    assert_eq!(RedirectMode::parse(b"none"), Some(RedirectMode::NoRedirect));
    assert_eq!(RedirectMode::parse(b"WWW"), None);
    assert_eq!(RedirectMode::parse(b""), None);
    assert_eq!(RedirectMode::parse(b"roots"), None);
}
