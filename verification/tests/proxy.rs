use gateway::proxy::{
    forward_headers, is_host_header, respond_admitted, upstream_failure_response, upstream_url,
    GatewayResponse, Header, UpstreamResponse,
};

fn header(name: &str, value: &str) -> Header {
    Header { name: name.to_string(), value: value.to_string() }
}

fn pairs(hs: &[Header]) -> Vec<(String, String)> {
    hs.iter().map(|h| (h.name.clone(), h.value.clone())).collect()
}

#[test]
fn host_header_recognized_in_any_casing() {
    assert!(is_host_header("host"));
    assert!(is_host_header("Host"));
    assert!(is_host_header("HOST"));
    assert!(is_host_header("hOsT"));
    assert!(!is_host_header("hose"));
    assert!(!is_host_header("x-host"));
    assert!(!is_host_header("hos"));
    assert!(!is_host_header(""));
}

#[test]
fn forwarding_drops_host_and_appends_marker() {
    let inbound = vec![
        header("host", "gateway.example"),
        header("accept", "*/*"),
        header("x-tenant-id", "acme"),
    ];
    let out = forward_headers(&inbound);
    assert_eq!(
        pairs(&out),
        vec![
            ("accept".to_string(), "*/*".to_string()),
            ("x-tenant-id".to_string(), "acme".to_string()),
            ("x-forwarded-by".to_string(), "nexusai-gateway/3.0".to_string()),
        ]
    );
}

#[test]
fn forwarding_always_sends_marker() {
    let out = forward_headers(&Vec::new());
    assert_eq!(
        pairs(&out),
        vec![("x-forwarded-by".to_string(), "nexusai-gateway/3.0".to_string())]
    );
}

#[test]
fn upstream_url_concatenates_verbatim() {
    assert_eq!(
        upstream_url("http://localhost:8000", Some("/api/v1/items?page=2&q=a%20b".to_string())),
        "http://localhost:8000/api/v1/items?page=2&q=a%20b"
    );
    assert_eq!(upstream_url("http://localhost:8000", None), "http://localhost:8000/");
}

#[test]
fn admitted_response_passes_status_and_body_through() {
    let upstream = UpstreamResponse {
        status: 207,
        headers: vec![header("content-type", "application/json"), header("etag", "\"abc\"")],
        body: vec![1, 2, 3, 255, 0],
    };
    let r: GatewayResponse = respond_admitted(upstream, Some(41), 1234);
    assert_eq!(r.status, 207);
    assert_eq!(r.body, vec![1, 2, 3, 255, 0]);
    assert_eq!(
        pairs(&r.headers),
        vec![
            ("content-type".to_string(), "application/json".to_string()),
            ("etag".to_string(), "\"abc\"".to_string()),
            ("x-gateway-latency-ms".to_string(), "12.34".to_string()),
            ("x-ratelimit-remaining".to_string(), "41".to_string()),
        ]
    );
}

#[test]
fn fail_open_response_has_no_remaining_header() {
    let upstream = UpstreamResponse { status: 200, headers: Vec::new(), body: Vec::new() };
    let r = respond_admitted(upstream, None, 5);
    assert_eq!(
        pairs(&r.headers),
        vec![("x-gateway-latency-ms".to_string(), "0.05".to_string())]
    );
}

#[test]
fn upstream_failure_maps_to_502_with_detail() {
    let (status, body) = upstream_failure_response("connection refused");
    assert_eq!(status, 502);
    assert_eq!(
        body,
        "{\"detail\":\"Upstream unavailable\",\"error\":\"connection refused\"}"
    );
}
