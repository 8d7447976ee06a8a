use katwebx::text::{trim_host, trim_port, trim_prefix, trim_suffix};

#[test]
fn test_trim_port() {
    assert_eq!(trim_port("127.0.0.1:8080"), "127.0.0.1");
    assert_eq!(trim_port("127.0.0.1"), "127.0.0.1");
    assert_eq!(trim_port("[::1]:8081"), "[::1]");
    assert_eq!(trim_port("[::1]"), "[::1]");
}

#[test]
fn test_trim_host() {
    assert_eq!(trim_host("127.0.0.1:8080"), ":8080");
    assert_eq!(trim_host("127.0.0.1"), "");
    assert_eq!(trim_host("[::1]:8081"), ":8081");
    assert_eq!(trim_host("[::1]"), "");
}

#[test]
fn test_trim_prefix() {
    assert_eq!(trim_prefix("str", "string"), "ing");
    assert_eq!(trim_prefix("no", "string"), "string");
    assert_eq!(trim_prefix("ing", "string"), "");
}

#[test]
fn test_trim_suffix() {
    assert_eq!(trim_suffix("ing", "string"), "str");
    assert_eq!(trim_suffix("no", "string"), "string");
    assert_eq!(trim_suffix("str", "string"), "");
}

#[test]
fn trim_port_and_trim_host_split_the_host() {
    for h in ["example.org:443", "[::1]:8081", "plain", "a:b:80", "[::1]x:80", "", ":", "]:[", "é:1"] {
        let joined = format!("{}{}", trim_port(h), trim_host(h));
        assert_eq!(joined, h);
    }
}

#[test]
fn trim_port_is_idempotent_on_bare_hosts_with_a_port() {
    for h in ["example.org:443", "[::1]:8081", "127.0.0.1:80", "localhost:8080"] {
        let once = trim_port(h);
        assert_eq!(trim_port(once), once);
    }
}

#[test]
fn trim_port_strips_one_port_at_a_time() {
    assert_eq!(trim_port("a:b:80"), "a:b");
    assert_eq!(trim_port("a:b"), "a");
    assert_eq!(trim_port("[::1]x:80"), "[::1]x:80");
    assert_eq!(trim_port("::1"), ":");
}

#[test]
fn trim_functions_count_characters_not_bytes() {
    assert_eq!(trim_port("bücher.example:8080"), "bücher.example");
    assert_eq!(trim_host("bücher.example:8080"), ":8080");
    assert_eq!(trim_prefix("ü", "bücher"), "cher");
    assert_eq!(trim_suffix("ü", "bücher"), "b");
}

#[test]
fn trim_prefix_cuts_at_the_first_occurrence_anywhere() {
    assert_eq!(trim_prefix("Basic ", "Basic YWJj"), "YWJj");
    assert_eq!(trim_prefix("b", "abcabc"), "cabc");
    assert_eq!(trim_prefix("", "abc"), "abc");
    assert_eq!(trim_suffix("b", "abcabc"), "abca");
    assert_eq!(trim_suffix("", "abc"), "abc");
}
