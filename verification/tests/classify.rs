use portscan::error::ScanError;
use portscan::service::PortCategory;
use portscan::service::ServiceDetector;

#[test]
fn scenario_json_rpc_probe_success() {
    let resp = "HTTP/1.1 200 OK\r\nContent-Type: application/json\r\n\r\n{\"jsonrpc\":\"2.0\",\"id\":1,\"result\":\"Geth/v1.10\"}";
    let info = ServiceDetector::detect(8545, Some(resp));
    assert_eq!(info.protocol, "JSON-RPC");
    assert_eq!(info.service_name, "Ethereum Node");
    assert_eq!(info.details, "JSON-RPC 2.0");
}

#[test]
fn scenario_http_probe_nginx() {
    let resp = "HTTP/1.1 200 OK\r\nServer: nginx\r\n\r\n";
    let info = ServiceDetector::detect(8080, Some(resp));
    assert_eq!(info.protocol, "HTTP");
    assert_eq!(info.service_name, "Nginx");
    assert_eq!(info.details, "HTTP/1.1 200 OK (nginx)");
}

#[test]
fn scenario_debug_port_never_probed() {
    let info = ServiceDetector::detect(4444, None);
    assert_eq!(info.protocol, "TCP");
    assert_eq!(info.service_name, "Debug");
    assert_eq!(info.details, "Debug/Remote Debug Port");
    // Even a reply that would look like HTTP is ignored on a debug port.
    let info2 = ServiceDetector::detect(4444, Some("HTTP/1.1 200 OK\r\nServer: nginx\r\n\r\n"));
    assert_eq!(info2.protocol, "TCP");
    assert_eq!(info2.service_name, "Debug");
    assert_eq!(info2.details, "Debug/Remote Debug Port");
    assert!(!ServiceDetector::needs_probe(4444));
}

#[test]
fn scenario_unknown_port_immediate() {
    let info = ServiceDetector::detect(9999, None);
    assert_eq!(info.protocol, "TCP");
    assert_eq!(info.service_name, "Unknown");
    assert_eq!(info.details, "Generic TCP Service");
    assert!(!ServiceDetector::needs_probe(9999));
}

#[test]
fn json_rpc_fallback_without_reply() {
    let info = ServiceDetector::detect(8549, None);
    assert_eq!(info.protocol, "JSON-RPC");
    assert_eq!(info.service_name, "ETH-RPC");
    assert_eq!(info.details, "Ethereum JSON-RPC Service");
}

#[test]
fn json_rpc_fallback_on_mismatching_reply() {
    let info = ServiceDetector::detect(8545, Some("HTTP/1.1 404 Not Found\r\n\r\nnothing here"));
    assert_eq!(info.protocol, "JSON-RPC");
    assert_eq!(info.service_name, "ETH-RPC");
    assert_eq!(info.details, "Ethereum JSON-RPC Service");
}

#[test]
fn web_fallback_without_reply() {
    let info = ServiceDetector::detect(443, None);
    assert_eq!(info.protocol, "HTTP");
    assert_eq!(info.service_name, "HTTP");
    assert_eq!(info.details, "Web Server");
}

#[test]
fn web_fallback_on_non_http_reply() {
    let info = ServiceDetector::detect(8080, Some("SSH-2.0-OpenSSH_8.9\r\n"));
    assert_eq!(info.protocol, "HTTP");
    assert_eq!(info.service_name, "HTTP");
    assert_eq!(info.details, "Web Server");
}

#[test]
fn api_port_static_descriptor() {
    let info = ServiceDetector::detect(5050, None);
    assert_eq!(info.protocol, "HTTP");
    assert_eq!(info.service_name, "API");
    assert_eq!(info.details, "REST/GraphQL API Service");
}

#[test]
fn detect_http_not_http_error() {
    match ServiceDetector::detect_http("garbage with no marker") {
        Err(ScanError::ServiceDetection(m)) => assert_eq!(m, "Not HTTP"),
        _ => panic!("expected a detection error"),
    }
}

#[test]
fn detect_http_empty_read_is_error() {
    assert!(ServiceDetector::detect_http("").is_err());
}

#[test]
fn detect_json_rpc_matches() {
    assert!(ServiceDetector::detect_json_rpc("x eth_blockNumber y").is_ok());
    assert!(ServiceDetector::detect_json_rpc("web3_clientVersion").is_ok());
    let ok = ServiceDetector::detect_json_rpc("{\"jsonrpc\":\"2.0\"}").unwrap();
    assert_eq!(ok.service_type, "Ethereum Node");
    assert_eq!(ok.version, "JSON-RPC 2.0");
    match ServiceDetector::detect_json_rpc("HTTP/1.1 200 OK") {
        Err(ScanError::ServiceDetection(m)) => assert_eq!(m, "Not JSON-RPC"),
        _ => panic!("expected a detection error"),
    }
}

#[test]
fn server_type_priority_order() {
    let both = "HTTP/1.1 200 OK\r\nServer: Apache nginx\r\n\r\n";
    assert_eq!(ServiceDetector::detect_http(both).unwrap().server_type, "Nginx");
    let apache = "HTTP/1.1 200 OK\r\nServer: Apache/2.4\r\n\r\n";
    assert_eq!(ServiceDetector::detect_http(apache).unwrap().server_type, "Apache");
    let graphql = "HTTP/1.1 200 OK\r\n\r\nTry the GraphQL endpoint";
    assert_eq!(ServiceDetector::detect_http(graphql).unwrap().server_type, "GraphQL API");
    let api = "HTTP/1.1 200 OK\r\n\r\nsee /api/v1";
    assert_eq!(ServiceDetector::detect_http(api).unwrap().server_type, "REST API");
    let swagger = "HTTP/1.1 200 OK\r\n\r\nswagger-ui";
    assert_eq!(ServiceDetector::detect_http(swagger).unwrap().server_type, "REST API");
    let plain = "HTTP/1.1 200 OK\r\n\r\nhello";
    assert_eq!(ServiceDetector::detect_http(plain).unwrap().server_type, "HTTP Service");
}

#[test]
fn apache_match_is_case_sensitive() {
    // Only the capitalised form counts for Apache, as for nginx only the
    // lower-case form.
    let lower = "HTTP/1.1 200 OK\r\nServer: apache\r\n\r\n";
    assert_eq!(ServiceDetector::detect_http(lower).unwrap().server_type, "HTTP Service");
    let upper_nginx = "HTTP/1.1 200 OK\r\nServer: NGINX\r\n\r\n";
    assert_eq!(ServiceDetector::detect_http(upper_nginx).unwrap().server_type, "HTTP Service");
}

#[test]
fn details_without_server_header() {
    let resp = "HTTP/1.0 404 Not Found\r\nContent-Type: text/plain\r\n\r\nmissing";
    let info = ServiceDetector::detect_http(resp).unwrap();
    assert_eq!(info.headers, "HTTP/1.0 404 Not Found");
}

#[test]
fn details_server_prefix_dropped_whatever_its_case() {
    // The header line is found however `server:` is cased, and the
    // seven-character prefix is dropped in the same case-insensitive way
    // before the value is trimmed.
    let resp = "HTTP/1.1 200 OK\r\nserver: lighttpd\r\n\r\n";
    let info = ServiceDetector::detect_http(resp).unwrap();
    assert_eq!(info.headers, "HTTP/1.1 200 OK (lighttpd)");
    let resp2 = "HTTP/1.1 200 OK\r\nSERVER: caddy\r\n\r\n";
    let info2 = ServiceDetector::detect_http(resp2).unwrap();
    assert_eq!(info2.headers, "HTTP/1.1 200 OK (caddy)");
}

#[test]
fn details_only_the_prefix_itself_is_dropped() {
    // Only the header's own `Server:` prefix goes; a value that happens
    // to begin with the same word is kept whole.
    let resp = "HTTP/1.1 200 OK\r\nServer:Server:unit\r\n\r\n";
    let info = ServiceDetector::detect_http(resp).unwrap();
    assert_eq!(info.headers, "HTTP/1.1 200 OK (Server:unit)");
}

#[test]
fn details_unicode_whitespace_trimmed_from_header_value() {
    let resp = "HTTP/1.1 200 OK\r\nServer:\u{a0}lighttpd\u{2003}\r\n\r\n";
    let info = ServiceDetector::detect_http(resp).unwrap();
    assert_eq!(info.headers, "HTTP/1.1 200 OK (lighttpd)");
}

#[test]
fn details_empty_server_header_gives_status_only() {
    let resp = "HTTP/1.1 204 No Content\r\nServer: \r\n\r\n";
    let info = ServiceDetector::detect_http(resp).unwrap();
    assert_eq!(info.headers, "HTTP/1.1 204 No Content");
}

#[test]
fn port_category_boundaries() {
    let table: &[(u16, PortCategory)] = &[
        (1, PortCategory::Unknown),
        (79, PortCategory::Unknown),
        (80, PortCategory::Web),
        (81, PortCategory::Unknown),
        (443, PortCategory::Web),
        (1234, PortCategory::Debug),
        (2999, PortCategory::Unknown),
        (3000, PortCategory::Web),
        (4443, PortCategory::Web),
        (4444, PortCategory::Debug),
        (4999, PortCategory::Web),
        (5000, PortCategory::Api),
        (5050, PortCategory::Api),
        (5051, PortCategory::Unknown),
        (5555, PortCategory::Debug),
        (6666, PortCategory::Debug),
        (7000, PortCategory::Api),
        (7070, PortCategory::Api),
        (7071, PortCategory::Unknown),
        (7777, PortCategory::Debug),
        (8000, PortCategory::Web),
        (8544, PortCategory::Web),
        (8545, PortCategory::JsonRpc),
        (8549, PortCategory::JsonRpc),
        (8550, PortCategory::Web),
        (9000, PortCategory::Web),
        (9001, PortCategory::Unknown),
        (65535, PortCategory::Unknown),
    ];
    for (port, cat) in table {
        assert_eq!(ServiceDetector::port_category(*port), *cat, "port {}", port);
    }
}

#[test]
fn probe_requests_are_the_wire_bytes() {
    let http = ServiceDetector::http_probe_request();
    assert_eq!(http, "GET / HTTP/1.1\r\nHost: localhost\r\nConnection: close\r\n\r\n");
    let rpc = ServiceDetector::json_rpc_probe_request();
    let split = rpc.find("\r\n\r\n").expect("header/body separator");
    let body = &rpc[split + 4..];
    assert_eq!(body, "{\"jsonrpc\":\"2.0\",\"method\":\"web3_clientVersion\",\"params\":[],\"id\":1}");
    assert_eq!(body.len(), 66);
    assert!(rpc.starts_with("POST / HTTP/1.1\r\n"));
    assert!(rpc.contains("Content-Length: 66\r\n"));
    assert!(rpc.contains("Content-Type: application/json\r\n"));
    assert!(rpc.contains("Connection: close\r\n"));
}
