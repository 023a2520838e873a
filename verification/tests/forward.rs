use api_proxy::config::ProxyTarget;
use api_proxy::forward::{build_outbound, forward_header, forward_headers, forwarded_for_value};
use api_proxy::header::Header;
use api_proxy::message::{OutboundRequest, Request};

fn header(name: &str, value: &str) -> Header {
    Header { name: name.to_string(), value: value.as_bytes().to_vec() }
}

fn names(list: &[&str]) -> Vec<String> {
    list.iter().map(|s| s.to_string()).collect()
}

fn target() -> ProxyTarget {
    ProxyTarget {
        host: "api.internal".to_string(),
        secure: false,
        source_path: "/v1".to_string(),
        dest_path: "/internal/v1".to_string(),
        use_auth: false,
        ignore_errors: false,
    }
}

fn request(headers: Vec<Header>, body: &[u8]) -> Request {
    Request {
        method: "GET".to_string(),
        path: "/v1/users".to_string(),
        query: Some("active=true".to_string()),
        headers,
        client_ip: "5.6.7.8".to_string(),
        body: body.to_vec(),
    }
}

#[test]
fn forward_header_replaces_host() {
    let kept = forward_header(&header("host", "proxy.example"), "api.internal", &names(&[]));
    assert_eq!(kept, Some(header("host", "api.internal")));
    let kept = forward_header(&header("Host", "proxy.example"), "api.internal:81", &names(&[]));
    assert_eq!(kept, Some(header("host", "api.internal:81")));
}

#[test]
fn forward_header_replaces_host_even_if_it_is_excluded() {
    let kept = forward_header(&header("host", "proxy.example"), "up", &names(&["host"]));
    assert_eq!(kept, Some(header("host", "up")));
}

#[test]
fn forward_header_drops_excluded_names() {
    let excluded = names(&["Authorization", "cookie"]);
    assert_eq!(forward_header(&header("authorization", "Bearer t"), "up", &excluded), None);
    assert_eq!(forward_header(&header("Cookie", "a=b"), "up", &excluded), None);
}

#[test]
fn forward_header_drops_forwarded_for() {
    assert_eq!(forward_header(&header("x-forwarded-for", "1.2.3.4"), "up", &names(&[])), None);
    assert_eq!(forward_header(&header("X-Forwarded-For", "1.2.3.4"), "up", &names(&[])), None);
}

#[test]
fn forward_header_copies_everything_else() {
    let excluded = names(&["authorization"]);
    let h = Header { name: "accept".to_string(), value: vec![b'*', 0xff, b'*'] };
    assert_eq!(forward_header(&h, "up", &excluded), Some(h.clone()));
    let h = header("x-forwarded-host", "proxy.example");
    assert_eq!(forward_header(&h, "up", &excluded), Some(h.clone()));
    let h = header("authorization2", "x");
    assert_eq!(forward_header(&h, "up", &excluded), Some(h.clone()));
}

#[test]
fn forwarded_for_is_the_client_when_the_header_is_absent() {
    let headers = vec![header("accept", "*/*")];
    assert_eq!(forwarded_for_value(&headers, "5.6.7.8"), b"5.6.7.8".to_vec());
    assert_eq!(forwarded_for_value(&Vec::new(), "::1"), b"::1".to_vec());
}

#[test]
fn forwarded_for_appends_the_client_to_the_chain() {
    let headers = vec![header("x-forwarded-for", "1.2.3.4")];
    assert_eq!(forwarded_for_value(&headers, "5.6.7.8"), b"1.2.3.4, 5.6.7.8".to_vec());
    let headers = vec![header("X-Forwarded-For", "1.2.3.4, 9.9.9.9")];
    assert_eq!(forwarded_for_value(&headers, "5.6.7.8"), b"1.2.3.4, 9.9.9.9, 5.6.7.8".to_vec());
}

#[test]
fn forwarded_for_is_the_client_when_the_chain_is_empty() {
    let headers = vec![header("x-forwarded-for", "")];
    assert_eq!(forwarded_for_value(&headers, "5.6.7.8"), b"5.6.7.8".to_vec());
}

#[test]
fn forwarded_for_uses_the_first_chain_only() {
    let headers = vec![header("x-forwarded-for", "1.1.1.1"), header("x-forwarded-for", "2.2.2.2")];
    assert_eq!(forwarded_for_value(&headers, "5.6.7.8"), b"1.1.1.1, 5.6.7.8".to_vec());
}

#[test]
fn forwarded_for_keeps_bytes_that_are_no_text() {
    let headers = vec![Header { name: "x-forwarded-for".to_string(), value: vec![0xfe, 0x01] }];
    assert_eq!(
        forwarded_for_value(&headers, "5.6.7.8"),
        vec![0xfe, 0x01, b',', b' ', b'5', b'.', b'6', b'.', b'7', b'.', b'8']
    );
}

#[test]
fn forward_headers_keeps_the_inbound_order_and_ends_with_forwarded_for() {
    let inbound = vec![
        header("accept", "*/*"),
        header("host", "proxy.example"),
        header("authorization", "Bearer t"),
        header("x-forwarded-for", "1.2.3.4"),
        header("user-agent", "curl"),
        header("accept", "text/html"),
    ];
    let out = forward_headers(&inbound, "api.internal", &names(&["authorization"]), "5.6.7.8");
    assert_eq!(
        out,
        vec![
            header("accept", "*/*"),
            header("host", "api.internal"),
            header("user-agent", "curl"),
            header("accept", "text/html"),
            header("x-forwarded-for", "1.2.3.4, 5.6.7.8"),
        ]
    );
}

#[test]
fn forward_headers_of_nothing_is_forwarded_for_alone() {
    let out = forward_headers(&Vec::new(), "api.internal", &names(&[]), "5.6.7.8");
    assert_eq!(out, vec![header("x-forwarded-for", "5.6.7.8")]);
}

#[test]
fn forward_headers_adds_no_host_of_its_own() {
    let out = forward_headers(&vec![header("accept", "a")], "up", &names(&[]), "5.6.7.8");
    assert!(out.iter().all(|h| h.name != "host"));
}

#[test]
fn forward_headers_rewrites_every_host_header() {
    let inbound = vec![header("host", "a"), header("Host", "b")];
    let out = forward_headers(&inbound, "up", &names(&[]), "5.6.7.8");
    assert_eq!(
        out,
        vec![header("host", "up"), header("host", "up"), header("x-forwarded-for", "5.6.7.8")]
    );
}

#[test]
fn build_outbound_assembles_the_request() {
    let inbound = vec![header("host", "proxy.example"), header("accept", "*/*")];
    let out = build_outbound(&names(&[]), &target(), request(inbound, b"payload"));
    assert_eq!(
        out,
        OutboundRequest {
            method: "GET".to_string(),
            url: "http://api.internal/internal/v1/users?active=true".to_string(),
            headers: vec![
                header("host", "api.internal"),
                header("accept", "*/*"),
                header("x-forwarded-for", "5.6.7.8"),
            ],
            body: Some(b"payload".to_vec()),
        }
    );
}

#[test]
fn build_outbound_sends_no_empty_body() {
    let out = build_outbound(&names(&[]), &target(), request(Vec::new(), b""));
    assert_eq!(out.body, None);
}

#[test]
fn build_outbound_passes_any_method_through() {
    for method in ["GET", "HEAD", "POST", "PUT", "PATCH", "DELETE", "OPTIONS"] {
        let mut r = request(Vec::new(), b"x");
        r.method = method.to_string();
        assert_eq!(build_outbound(&names(&[]), &target(), r).method, method);
    }
}
