use katwebx::proxy::{
    forward_headers, has_header, hop_by_hop, pool_lifetime, relay_headers, Header,
};

fn header(name: &str, value: &str) -> Header {
    Header { name: name.to_owned(), value: value.to_owned() }
}

fn chars(s: &str) -> Vec<char> {
    s.chars().collect()
}

const HOP_BY_HOP: [&str; 9] = [
    "Connection",
    "Proxy-Connection",
    "Keep-Alive",
    "Proxy-Authenticate",
    "Proxy-Authorization",
    "TE",
    "Trailer",
    "Transfer-Encoding",
    "Upgrade",
];

#[test]
fn hop_by_hop_headers_are_never_forwarded() {
    let mut headers = vec![header("Host", "example.org")];
    for name in HOP_BY_HOP {
        headers.push(header(name, "x"));
        headers.push(header(&name.to_lowercase(), "y"));
        headers.push(header(&name.to_uppercase(), "z"));
    }
    headers.push(header("Cookie", "a=b"));
    let out = forward_headers(&headers, "10.0.0.1");
    for h in &out {
        assert!(!HOP_BY_HOP.iter().any(|n| n.eq_ignore_ascii_case(&h.name)), "{}", h.name);
    }
    assert_eq!(
        out,
        vec![
            header("Host", "example.org"),
            header("Cookie", "a=b"),
            header("X-Forwarded-For", "10.0.0.1"),
            header("Accept-Encoding", "none"),
            header("User-Agent", "KatWebX-Proxy"),
        ]
    );
}

#[test]
fn forwarded_for_is_appended_to() {
    let headers = vec![
        header("x-forwarded-for", "1.1.1.1, 2.2.2.2"),
        header("User-Agent", "curl/8"),
    ];
    let out = forward_headers(&headers, "3.3.3.3");
    assert_eq!(
        out,
        vec![
            header("X-Forwarded-For", "1.1.1.1, 2.2.2.2, 3.3.3.3"),
            header("User-Agent", "curl/8"),
            header("Accept-Encoding", "none"),
        ]
    );
}

#[test]
fn forwarded_for_always_ends_with_the_client() {
    for headers in [
        vec![],
        vec![header("X-Forwarded-For", "9.9.9.9")],
        vec![header("X-FORWARDED-FOR", ""), header("x-forwarded-for", "a")],
        vec![header("Upgrade", "websocket"), header("Accept", "*/*")],
    ] {
        let out = forward_headers(&headers, "::1");
        let found: Vec<&Header> =
            out.iter().filter(|h| h.name.eq_ignore_ascii_case("x-forwarded-for")).collect();
        assert!(!found.is_empty());
        for h in found {
            assert!(h.value.ends_with("::1"));
        }
    }
}

#[test]
fn accept_encoding_is_forced_to_none() {
    let headers = vec![header("Accept-Encoding", "gzip, br"), header("accept-encoding", "zstd")];
    let out = forward_headers(&headers, "10.0.0.1");
    let codings: Vec<&Header> =
        out.iter().filter(|h| h.name.eq_ignore_ascii_case("accept-encoding")).collect();
    assert_eq!(codings, vec![&header("Accept-Encoding", "none")]);
}

#[test]
fn hop_by_hop_names_are_told_in_any_case() {
    for name in HOP_BY_HOP {
        assert!(hop_by_hop(&chars(name)));
        assert!(hop_by_hop(&chars(&name.to_lowercase())));
    }
    for name in ["Host", "Content-Length", "T", "TEE", "User-Agent", "Keep_Alive", ""] {
        assert!(!hop_by_hop(&chars(name)), "{}", name);
    }
}

#[test]
fn upstream_answers_lose_their_length() {
    let headers = vec![
        header("Content-Type", "text/html"),
        header("content-length", "42"),
        header("Set-Cookie", "a=b"),
        header("Set-Cookie", "c=d"),
        header("Connection", "close"),
    ];
    let (out, encoded) = relay_headers(&headers);
    assert!(!encoded);
    assert_eq!(
        out,
        vec![
            header("Content-Type", "text/html"),
            header("Set-Cookie", "a=b"),
            header("Set-Cookie", "c=d"),
            header("Connection", "close"),
        ]
    );
}

#[test]
fn encoded_upstream_answers_are_not_compressed_again() {
    let headers = vec![header("Content-Encoding", "gzip"), header("Content-Length", "7")];
    let (out, encoded) = relay_headers(&headers);
    assert!(encoded);
    assert_eq!(out, vec![header("Content-Encoding", "gzip")]);
}

#[test]
fn headers_are_found_in_any_case() {
    let headers = vec![header("USER-agent", "x")];
    assert!(has_header(&headers, "user-agent"));
    assert!(!has_header(&headers, "user-agen"));
    assert!(!has_header(&vec![], "user-agent"));
}

#[test]
fn pooled_connections_live_four_timeouts() {
    assert_eq!(pool_lifetime(20), 80);
    assert_eq!(pool_lifetime(0), 0);
    assert_eq!(pool_lifetime(u64::MAX / 4), u64::MAX - 3);
    assert_eq!(pool_lifetime(u64::MAX / 4 + 1), u64::MAX);
    assert_eq!(pool_lifetime(u64::MAX), u64::MAX);
}
