use katwebx::config::{Config, ContentSettings, ServerSettings, Settings};
use katwebx::proxy::Header;
use katwebx::range::DeliveryPlan;
use katwebx::respond::{
    cache_control, content_range, directory_target, file_response, hsts_target, missing_file,
    redirect_body, serves, Missing, TransportCoding,
};

fn conf(caching_timeout: Option<i64>, hsts: Option<bool>, protect: Option<bool>) -> Config {
    let raw = Settings {
        server: ServerSettings {
            http_addr: None,
            tls_addr: None,
            stream_timeout: None,
            log_format: None,
            cert_folder: None,
            root_folder: None,
            copy_chunk_size: None,
            prefer_chacha_poly: None,
        },
        content: ContentSettings {
            protect,
            caching_timeout,
            compress_files: None,
            hsts,
            hide: None,
            smaller_default: None,
        },
        proxy: None,
        redir: None,
        auth: None,
    };
    Config::load_config(raw).unwrap()
}

fn header(name: &str, value: &str) -> Header {
    Header { name: name.to_owned(), value: value.to_owned() }
}

#[test]
fn files_are_served_for_get_and_head_only() {
    assert!(serves("GET"));
    assert!(serves("HEAD"));
    for method in ["POST", "PUT", "DELETE", "OPTIONS", "get", "", "GETX"] {
        assert!(!serves(method));
    }
}

#[test]
fn plaintext_requests_are_upgraded() {
    assert_eq!(hsts_target("example.org", "[::]:443", "/a"), "https://example.org/a");
    assert_eq!(hsts_target("example.org:80", "[::]:443", "/a"), "https://example.org/a");
    assert_eq!(hsts_target("example.org:8080", "0.0.0.0:8443", "/a?b"), "https://example.org:8443/a?b");
    assert_eq!(hsts_target("[::1]:80", "[::]:8443", "/"), "https://[::1]:8443/");
    assert_eq!(hsts_target("example.org", "nowhere", "/"), "https://example.org/");
}

#[test]
fn cache_control_follows_the_timeout() {
    assert_eq!(cache_control(0), "no-store, must-revalidate");
    assert_eq!(cache_control(12), "max-age=43200, public, stale-while-revalidate=10800");
    assert_eq!(cache_control(1), "max-age=3600, public, stale-while-revalidate=900");
    assert_eq!(cache_control(-1), "max-age=-3600, public, stale-while-revalidate=-900");
    assert_eq!(
        cache_control(i64::MAX),
        "max-age=33204139332677192905200, public, stale-while-revalidate=8301034833169298226300"
    );
    assert_eq!(
        cache_control(i64::MIN),
        "max-age=-33204139332677192908800, public, stale-while-revalidate=-8301034833169298227200"
    );
}

#[test]
fn content_range_names_the_bytes_of_a_partial_plan() {
    assert_eq!(content_range(DeliveryPlan { offset: 0, length: 30 }, 30), None);
    assert_eq!(
        content_range(DeliveryPlan { offset: 10, length: 10 }, 30),
        Some("bytes 10-19/30".to_owned())
    );
    assert_eq!(
        content_range(DeliveryPlan { offset: 0, length: 1 }, 30),
        Some("bytes 0-0/30".to_owned())
    );
    assert_eq!(content_range(DeliveryPlan { offset: 0, length: 0 }, 30), None);
    assert_eq!(
        content_range(DeliveryPlan { offset: u64::MAX, length: u64::MAX }, u64::MAX),
        Some("bytes 18446744073709551615-36893488147419103229/18446744073709551615".to_owned())
    );
}

#[test]
fn a_whole_file_goes_out_with_all_headers() {
    let c = conf(None, Some(true), None);
    let r = file_response(&c, "text/html; charset=utf-8", false, true, DeliveryPlan { offset: 0, length: 30 }, 30);
    assert_eq!(r.status, 200);
    assert_eq!(r.coding, TransportCoding::Auto);
    assert_eq!(
        r.headers,
        vec![
            header("Content-Type", "text/html; charset=utf-8"),
            header("Accept-Ranges", "bytes"),
            header("Cache-Control", "max-age=43200, public, stale-while-revalidate=10800"),
            header("Strict-Transport-Security", "max-age=31536000;includeSubDomains;preload"),
            header("Referrer-Policy", "no-referrer"),
            header("X-Content-Type-Options", "nosniff"),
            header(
                "Content-Security-Policy",
                "default-src https: data: 'unsafe-inline' 'unsafe-eval' 'self'; frame-ancestors 'self'"
            ),
            header("X-XSS-Protection", "1; mode=block"),
            header("Server", "KatWebX-Alpha"),
        ]
    );
}

#[test]
fn a_partial_compressed_sibling_goes_out_as_it_is() {
    let c = conf(Some(0), None, Some(false));
    let r = file_response(&c, "image/png", true, true, DeliveryPlan { offset: 5, length: 10 }, 30);
    assert_eq!(r.status, 206);
    assert_eq!(r.coding, TransportCoding::Identity);
    assert_eq!(
        r.headers,
        vec![
            header("Content-Type", "image/png"),
            header("Accept-Ranges", "bytes"),
            header("Content-Encoding", "br"),
            header("Content-Range", "bytes 5-14/30"),
            header("Cache-Control", "no-store, must-revalidate"),
            header("Server", "KatWebX-Alpha"),
        ]
    );
    let plain = file_response(&c, "image/png", false, false, DeliveryPlan { offset: 0, length: 30 }, 30);
    assert_eq!(plain.coding, TransportCoding::Unset);
}

#[test]
fn missing_files_are_listed_or_not_found() {
    assert_eq!(missing_file("/index.html"), Missing::Listing);
    assert_eq!(missing_file("/docs/index.html"), Missing::Listing);
    assert_eq!(missing_file("/docs/page.html"), Missing::NotFound);
    assert_eq!(missing_file("index.html"), Missing::NotFound);
    assert_eq!(directory_target("/docs"), "/docs/");
}

#[test]
fn redirects_carry_a_link() {
    assert_eq!(
        redirect_body("https://google.com"),
        "<a href='https://google.com'>If this redirect does not work, click here</a>"
    );
}
