//! Heuristic service classification: a pure dispatch on the destination
//! port number, refined for HTTP-like and Ethereum-JSON-RPC-like ports by
//! inspecting the text an active probe got back.

use crate::error::ScanError;
use crate::text::chars_vec;
use crate::text::contains_chars;
use crate::text::contains_chars_ci;
use crate::text::find_server_line;
use crate::text::first_line_end;
use crate::text::lower_seq;
use crate::text::seq_contains;
use crate::text::spec_first_line;
use crate::text::spec_server_line;
use crate::text::spec_trim;
use crate::text::trim_range;
use vstd::prelude::*;

verus! {

/// Milliseconds allowed for each write and each read of an active probe.
pub const PROBE_TIMEOUT_MS: u64 = 500;

/// Best-effort description of the service behind an open port.
#[derive(Debug)]
pub struct ServiceInfo {
    /// Transport or application label, e.g. `HTTP`, `JSON-RPC`, `TCP`.
    pub protocol: String,
    /// Short classifier, e.g. `Nginx`, `ETH-RPC`, `Unknown`.
    pub service_name: String,
    /// Free-text diagnostic, e.g. a status line plus server header.
    pub details: String,
}

/// The mathematical value of a `ServiceInfo`: its three texts.
pub ghost struct ServiceInfoV {
    pub protocol: Seq<char>,
    pub service_name: Seq<char>,
    pub details: Seq<char>,
}

impl View for ServiceInfo {
    type V = ServiceInfoV;

    open spec fn view(&self) -> ServiceInfoV {
        ServiceInfoV {
            protocol: self.protocol@,
            service_name: self.service_name@,
            details: self.details@,
        }
    }
}

/// Outcome of a successful HTTP probe: a coarse server classifier and the
/// condensed status-line/server-header text.
#[derive(Debug)]
pub struct HttpInfo {
    pub server_type: String,
    pub headers: String,
}

/// Outcome of a successful JSON-RPC probe.
#[derive(Debug)]
pub struct RpcInfo {
    pub service_type: String,
    pub version: String,
}

/// The port categories of the classification table, in priority order.
#[derive(Clone, Copy, Debug, PartialEq, Eq, Structural)]
pub enum PortCategory {
    /// 8545-8549: Ethereum JSON-RPC; actively probed.
    JsonRpc,
    /// 1234, 4444, 5555, 6666, 7777: debug ports; no probe.
    Debug,
    /// 5000-5050, 7000-7070: API ports; no probe.
    Api,
    /// 80, 443, 3000-4999, 8000-9000: web ports; actively probed.
    Web,
    /// Everything else; no probe.
    Unknown,
}

/// The category of a port, first matching rule of the table winning.
pub open spec fn spec_port_category(port: u16) -> PortCategory {
    if 8545 <= port && port <= 8549 {
        PortCategory::JsonRpc
    } else if port == 1234 || port == 4444 || port == 5555 || port == 6666 || port == 7777 {
        PortCategory::Debug
    } else if (5000 <= port && port <= 5050) || (7000 <= port && port <= 7070) {
        PortCategory::Api
    } else if port == 80 || port == 443 || (3000 <= port && port <= 4999) || (8000 <= port && port
        <= 9000) {
        PortCategory::Web
    } else {
        PortCategory::Unknown
    }
}

/// A probe reply that an Ethereum JSON-RPC endpoint would give: it
/// mentions `jsonrpc`, `eth_` or `web3_`.
pub open spec fn spec_rpc_matches(s: Seq<char>) -> bool {
    seq_contains(s, "jsonrpc"@) || seq_contains(s, "eth_"@) || seq_contains(s, "web3_"@)
}

/// A probe reply that looks like HTTP at all: it mentions `HTTP/`.
pub open spec fn spec_http_ok(s: Seq<char>) -> bool {
    seq_contains(s, "HTTP/"@)
}

/// The coarse server classifier read off an HTTP reply, first match
/// winning: `nginx` and `Apache` literally, `graphql` up to ASCII case,
/// then `/api` or `swagger`, else a generic label.
pub open spec fn spec_server_type(s: Seq<char>) -> Seq<char> {
    if seq_contains(s, "nginx"@) {
        "Nginx"@
    } else if seq_contains(s, "Apache"@) {
        "Apache"@
    } else if seq_contains(lower_seq(s), lower_seq("graphql"@)) {
        "GraphQL API"@
    } else if seq_contains(s, "/api"@) || seq_contains(s, "swagger"@) {
        "REST API"@
    } else {
        "HTTP Service"@
    }
}

/// The server-header text of an HTTP reply: its first `server:` line —
/// found without regard to case, so it is known to begin with the
/// seven-character `server:` prefix — with that prefix dropped and the
/// value trimmed of whitespace; empty when no such line exists.
pub open spec fn spec_server_header(s: Seq<char>) -> Seq<char> {
    match spec_server_line(s) {
        Some(line) => spec_trim(line.subrange(7, line.len() as int)),
        None => Seq::empty(),
    }
}

/// The condensed details text of an HTTP reply: the status line, followed
/// by the server header in parentheses when one is present.
pub open spec fn spec_http_details(s: Seq<char>) -> Seq<char> {
    let status = spec_first_line(s);
    let hdr = spec_server_header(s);
    if hdr.len() == 0 {
        status
    } else {
        status + " ("@ + hdr + ")"@
    }
}

/// What classification returns for a port, given the text its active
/// probe got back (`None` when no reply was obtained); ports whose
/// category performs no probe ignore the reply.
pub open spec fn spec_detect(port: u16, resp: Option<Seq<char>>) -> ServiceInfoV {
    match spec_port_category(port) {
        PortCategory::JsonRpc => match resp {
            Some(s) => if spec_rpc_matches(s) {
                ServiceInfoV {
                    protocol: "JSON-RPC"@,
                    service_name: "Ethereum Node"@,
                    details: "JSON-RPC 2.0"@,
                }
            } else {
                spec_eth_fallback()
            },
            None => spec_eth_fallback(),
        },
        PortCategory::Debug => ServiceInfoV {
            protocol: "TCP"@,
            service_name: "Debug"@,
            details: "Debug/Remote Debug Port"@,
        },
        PortCategory::Api => ServiceInfoV {
            protocol: "HTTP"@,
            service_name: "API"@,
            details: "REST/GraphQL API Service"@,
        },
        PortCategory::Web => match resp {
            Some(s) => if spec_http_ok(s) {
                ServiceInfoV {
                    protocol: "HTTP"@,
                    service_name: spec_server_type(s),
                    details: spec_http_details(s),
                }
            } else {
                spec_web_fallback()
            },
            None => spec_web_fallback(),
        },
        PortCategory::Unknown => ServiceInfoV {
            protocol: "TCP"@,
            service_name: "Unknown"@,
            details: "Generic TCP Service"@,
        },
    }
}

/// Descriptor of a JSON-RPC port whose probe failed.
pub open spec fn spec_eth_fallback() -> ServiceInfoV {
    ServiceInfoV {
        protocol: "JSON-RPC"@,
        service_name: "ETH-RPC"@,
        details: "Ethereum JSON-RPC Service"@,
    }
}

/// Descriptor of a web port whose probe failed.
pub open spec fn spec_web_fallback() -> ServiceInfoV {
    ServiceInfoV { protocol: "HTTP"@, service_name: "HTTP"@, details: "Web Server"@ }
}

/// The classification logic; it owns no state.
pub struct ServiceDetector;

impl ServiceDetector {
    /// The category of a port, as the table of `spec_port_category` has it.
    pub fn port_category(port: u16) -> (c: PortCategory)
        ensures
            c == spec_port_category(port),
    {
        if 8545 <= port && port <= 8549 {
            PortCategory::JsonRpc
        } else if port == 1234 || port == 4444 || port == 5555 || port == 6666 || port == 7777 {
            PortCategory::Debug
        } else if (5000 <= port && port <= 5050) || (7000 <= port && port <= 7070) {
            PortCategory::Api
        } else if port == 80 || port == 443 || (3000 <= port && port <= 4999) || (8000 <= port
            && port <= 9000) {
            PortCategory::Web
        } else {
            PortCategory::Unknown
        }
    }

    /// Whether an open port of this category calls for an active probe
    /// (over a second connection) before it is classified.
    pub fn needs_probe(port: u16) -> (r: bool)
        ensures
            r == (spec_port_category(port) == PortCategory::JsonRpc || spec_port_category(port)
                == PortCategory::Web),
    {
        match Self::port_category(port) {
            PortCategory::JsonRpc => true,
            PortCategory::Web => true,
            _ => false,
        }
    }

    /// Classify an HTTP probe reply.  Succeeds exactly when the reply
    /// carries an `HTTP/` marker; the result then holds the coarse server
    /// type and the condensed status-line/server-header text.
    pub fn detect_http(response: &str) -> (r: Result<HttpInfo, ScanError>)
        ensures
            match r {
                Ok(info) => spec_http_ok(response@) && info.server_type@ == spec_server_type(
                    response@,
                ) && info.headers@ == spec_http_details(response@),
                Err(e) => !spec_http_ok(response@) && (e matches ScanError::ServiceDetection(m)
                    && m@ == "Not HTTP"@),
            },
    {
        let v = chars_vec(response);
        if !contains_chars(&v, "HTTP/") {
            return Err(ScanError::ServiceDetection(String::from_str("Not HTTP")));
        }
        let server_type = if contains_chars(&v, "nginx") {
            "Nginx"
        } else if contains_chars(&v, "Apache") {
            "Apache"
        } else if contains_chars_ci(&v, "graphql") {
            "GraphQL API"
        } else if contains_chars(&v, "/api") || contains_chars(&v, "swagger") {
            "REST API"
        } else {
            "HTTP Service"
        };
        let status_end = first_line_end(&v);
        let status_line = response.substring_char(0, status_end);
        let details = match find_server_line(&v) {
            Some((ls, le)) => {
                proof {
                    let line = response@.subrange(ls as int, le as int);
                    assert(line.subrange(7, line.len() as int) =~= response@.subrange(
                        ls + 7,
                        le as int,
                    ));
                }
                let (ts, te) = trim_range(&v, ls + 7, le);
                if ts == te {
                    status_line.to_owned()
                } else {
                    let hdr = response.substring_char(ts, te);
                    let d = status_line.to_owned().concat(" (").concat(hdr).concat(")");
                    proof {
                        assert(d@ =~= spec_first_line(response@) + " ("@ + spec_server_header(
                            response@,
                        ) + ")"@);
                    }
                    d
                }
            },
            None => status_line.to_owned(),
        };
        Ok(HttpInfo { server_type: String::from_str(server_type), headers: details })
    }

    /// Classify a JSON-RPC probe reply.  Succeeds exactly when the reply
    /// mentions `jsonrpc`, `eth_` or `web3_`.
    pub fn detect_json_rpc(response: &str) -> (r: Result<RpcInfo, ScanError>)
        ensures
            match r {
                Ok(info) => spec_rpc_matches(response@) && info.service_type@ == "Ethereum Node"@
                    && info.version@ == "JSON-RPC 2.0"@,
                Err(e) => !spec_rpc_matches(response@) && (e matches ScanError::ServiceDetection(
                    m,
                ) && m@ == "Not JSON-RPC"@),
            },
    {
        let v = chars_vec(response);
        if contains_chars(&v, "jsonrpc") || contains_chars(&v, "eth_") || contains_chars(
            &v,
            "web3_",
        ) {
            Ok(
                RpcInfo {
                    service_type: String::from_str("Ethereum Node"),
                    version: String::from_str("JSON-RPC 2.0"),
                },
            )
        } else {
            Err(ScanError::ServiceDetection(String::from_str("Not JSON-RPC")))
        }
    }

    /// Classify an open port from its number and from the text its active
    /// probe got back; `None` stands for a probe that yielded no reply
    /// (no second connection, a timeout, or an empty read).  The result is
    /// exactly `spec_detect`, so classification always succeeds.
    pub fn detect(port: u16, response: Option<&str>) -> (r: ServiceInfo)
        ensures
            r@ == spec_detect(
                port,
                match response {
                    Some(s) => Some(s@),
                    None => None,
                },
            ),
    {
        match Self::port_category(port) {
            PortCategory::JsonRpc => {
                let probed = match response {
                    Some(s) => match Self::detect_json_rpc(s) {
                        Ok(info) => Some(info),
                        Err(_) => None,
                    },
                    None => None,
                };
                match probed {
                    Some(info) => ServiceInfo {
                        protocol: String::from_str("JSON-RPC"),
                        service_name: info.service_type,
                        details: info.version,
                    },
                    None => ServiceInfo {
                        protocol: String::from_str("JSON-RPC"),
                        service_name: String::from_str("ETH-RPC"),
                        details: String::from_str("Ethereum JSON-RPC Service"),
                    },
                }
            },
            PortCategory::Debug => ServiceInfo {
                protocol: String::from_str("TCP"),
                service_name: String::from_str("Debug"),
                details: String::from_str("Debug/Remote Debug Port"),
            },
            PortCategory::Api => ServiceInfo {
                protocol: String::from_str("HTTP"),
                service_name: String::from_str("API"),
                details: String::from_str("REST/GraphQL API Service"),
            },
            PortCategory::Web => {
                let probed = match response {
                    Some(s) => match Self::detect_http(s) {
                        Ok(info) => Some(info),
                        Err(_) => None,
                    },
                    None => None,
                };
                match probed {
                    Some(info) => ServiceInfo {
                        protocol: String::from_str("HTTP"),
                        service_name: info.server_type,
                        details: info.headers,
                    },
                    None => ServiceInfo {
                        protocol: String::from_str("HTTP"),
                        service_name: String::from_str("HTTP"),
                        details: String::from_str("Web Server"),
                    },
                }
            },
            PortCategory::Unknown => ServiceInfo {
                protocol: String::from_str("TCP"),
                service_name: String::from_str("Unknown"),
                details: String::from_str("Generic TCP Service"),
            },
        }
    }

    /// The request an HTTP probe writes before reading the reply.
    pub fn http_probe_request() -> (r: String)
        ensures
            r@ == "GET / HTTP/1.1\r\nHost: localhost\r\nConnection: close\r\n\r\n"@,
    {
        String::from_str("GET / HTTP/1.1\r\nHost: localhost\r\nConnection: close\r\n\r\n")
    }

    /// The request a JSON-RPC probe writes before reading the reply: an
    /// HTTP POST of a `web3_clientVersion` call, its `Content-Length`
    /// matching the 66-character JSON body.
    pub fn json_rpc_probe_request() -> (r: String)
        ensures
            r@
                == "POST / HTTP/1.1\r\nHost: localhost\r\nContent-Type: application/json\r\nContent-Length: 66\r\nConnection: close\r\n\r\n{\"jsonrpc\":\"2.0\",\"method\":\"web3_clientVersion\",\"params\":[],\"id\":1}"@,
    {
        String::from_str(
            "POST / HTTP/1.1\r\nHost: localhost\r\nContent-Type: application/json\r\nContent-Length: 66\r\nConnection: close\r\n\r\n{\"jsonrpc\":\"2.0\",\"method\":\"web3_clientVersion\",\"params\":[],\"id\":1}",
        )
    }
}

} // verus!
