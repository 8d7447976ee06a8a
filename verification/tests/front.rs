use katwebx::config::{Config, ContentSettings, ServerSettings, Settings};
use katwebx::front::{Action, Event, Phase, Request, Session};
use katwebx::proxy::Header;
use katwebx::respond::TransportCoding;
use katwebx::rules::{AuthRule, Rule};
use katwebx::stream::ReadRequest;

fn conf_with(hsts: bool, compress_files: bool, chunk: u64) -> Config {
    let raw = Settings {
        server: ServerSettings {
            http_addr: None,
            tls_addr: Some("[::]:8443".to_owned()),
            stream_timeout: Some(30),
            log_format: None,
            cert_folder: None,
            root_folder: None,
            copy_chunk_size: Some(chunk),
            prefer_chacha_poly: None,
        },
        content: ContentSettings {
            protect: Some(false),
            caching_timeout: Some(0),
            compress_files: Some(compress_files),
            hsts: Some(hsts),
            hide: None,
            smaller_default: None,
        },
        proxy: Some(vec![Rule { location: "proxy.local".to_owned(), dest: "http://upstream".to_owned() }]),
        redir: Some(vec![Rule { location: "localhost/old".to_owned(), dest: "https://new.example".to_owned() }]),
        auth: Some(vec![AuthRule { location: "r#localhost/secret.*".to_owned(), login: "a:b".to_owned() }]),
    };
    Config::load_config(raw).unwrap()
}

fn request(method: &str, path: &str, host: &str) -> Request {
    Request {
        method: method.to_owned(),
        path: path.to_owned(),
        host: host.to_owned(),
        authorization: String::new(),
        accept_encoding: String::new(),
        range: None,
        headers: vec![Header { name: "Connection".to_owned(), value: "close".to_owned() }],
        client_ip: "10.0.0.7".to_owned(),
        secure: true,
    }
}

/// Starts a session and, where it asks about the host's folder, answers
/// that the folder is no directory.
fn begin(conf: &Config, req: &Request) -> (Session, Action) {
    let (mut session, action) = Session::start(conf, req);
    match action {
        Action::ProbeHost { folder } => {
            assert_eq!(session.phase, Phase::Rooting);
            assert_eq!(folder, format!("./{}", session.host));
            let next = session.advance(conf, Event::HostFound(false));
            (session, next)
        }
        other => (session, other),
    }
}

fn header(name: &str, value: &str) -> Header {
    Header { name: name.to_owned(), value: value.to_owned() }
}

#[test]
fn plaintext_requests_are_upgraded_before_the_rules() {
    let conf = conf_with(true, true, 4);
    let mut req = request("GET", "/secret/x", "localhost:80");
    req.secure = false;
    let (session, action) = Session::start(&conf, &req);
    assert_eq!(session.phase, Phase::Finished);
    match action {
        Action::Redirect(target) => assert_eq!(target, "https://localhost:8443/secret/x"),
        other => panic!("unexpected {:?}", other),
    }
}

#[test]
fn rules_answer_without_touching_a_file() {
    let conf = conf_with(false, true, 4);
    let (s, a) = Session::start(&conf, &request("GET", "/secret/x", "localhost"));
    assert_eq!(s.phase, Phase::Finished);
    assert!(matches!(a, Action::Unauthorized));
    let (_, a) = Session::start(&conf, &request("POST", "/old", "localhost"));
    match a {
        Action::Redirect(target) => assert_eq!(target, "https://new.example"),
        other => panic!("unexpected {:?}", other),
    }
    let (s, a) = Session::start(&conf, &request("POST", "/page", "localhost"));
    assert!(matches!(a, Action::MethodNotAllowed));
    assert_eq!(s.phase, Phase::Finished);
}

#[test]
fn proxied_requests_go_upstream_with_rewritten_headers() {
    let conf = conf_with(false, true, 4);
    let (s, a) = Session::start(&conf, &request("POST", "/api?q=1", "proxy.local"));
    assert_eq!(s.phase, Phase::Finished);
    match a {
        Action::Forward { url, headers, pool_lifetime } => {
            assert_eq!(url, "http://upstream/api?q=1");
            assert_eq!(pool_lifetime, 120);
            assert_eq!(
                headers,
                vec![
                    header("X-Forwarded-For", "10.0.0.7"),
                    header("Accept-Encoding", "none"),
                    header("User-Agent", "KatWebX-Proxy"),
                ]
            );
        }
        other => panic!("unexpected {:?}", other),
    }
}

#[test]
fn a_known_file_is_opened_planned_and_streamed() {
    let conf = conf_with(false, true, 4);
    let mut req = request("GET", "/docs/", "localhost");
    req.range = Some("bytes=2-11".to_owned());
    let (mut s, a) = begin(&conf, &req);
    assert_eq!(s.phase, Phase::Opening);
    assert_eq!(s.mime, "text/html; charset=utf-8");
    match a {
        Action::Open { path } => assert_eq!(path, "html/docs/index.html"),
        other => panic!("unexpected {:?}", other),
    }
    let a = s.advance(&conf, Event::Opened { len: 64, is_dir: false });
    assert_eq!(s.phase, Phase::Finished);
    match a {
        Action::Stream { path, head, reader } => {
            assert_eq!(path, "html/docs/index.html");
            assert_eq!(head.status, 206);
            assert_eq!(head.coding, TransportCoding::Auto);
            assert_eq!(
                head.headers,
                vec![
                    header("Content-Type", "text/html; charset=utf-8"),
                    header("Accept-Ranges", "bytes"),
                    header("Content-Range", "bytes 2-11/64"),
                    header("Cache-Control", "no-store, must-revalidate"),
                    header("Server", "KatWebX-Alpha"),
                ]
            );
            assert_eq!(reader.next_read(), Some(ReadRequest { position: 2, max_bytes: 4 }));
            assert_eq!(reader.size, 10);
        }
        other => panic!("unexpected {:?}", other),
    }
}

#[test]
fn an_unknown_file_is_sniffed_first() {
    let conf = conf_with(false, true, 4);
    let (mut s, a) = begin(&conf, &request("GET", "/blob", "localhost"));
    assert_eq!(s.phase, Phase::Sniffing);
    match a {
        Action::ReadHead { path, max_bytes } => {
            assert_eq!(path, "html/blob");
            assert_eq!(max_bytes, 512);
        }
        other => panic!("unexpected {:?}", other),
    }
    let a = s.advance(&conf, Event::Head(Some(b"%PDF-1.5 ...".to_vec())));
    assert_eq!(s.mime, "application/pdf");
    assert_eq!(s.phase, Phase::Opening);
    assert!(matches!(a, Action::Open { .. }));
}

#[test]
fn an_unreadable_file_keeps_the_unknown_type() {
    let conf = conf_with(false, true, 4);
    let (mut s, _) = begin(&conf, &request("GET", "/blob", "localhost"));
    let a = s.advance(&conf, Event::Head(None));
    assert_eq!(s.mime, "application/octet-stream");
    assert!(matches!(a, Action::Open { .. }));
    let a = s.advance(&conf, Event::Missing);
    assert!(matches!(a, Action::NotFound));
    assert_eq!(s.phase, Phase::Finished);
}

#[test]
fn brotli_clients_get_the_sibling_where_there_is_one() {
    let conf = conf_with(false, false, 4);
    let mut req = request("GET", "/app.js", "localhost");
    req.accept_encoding = "gzip, br".to_owned();
    let (mut s, a) = begin(&conf, &req);
    assert_eq!(s.phase, Phase::Probing);
    match a {
        Action::ProbeSibling { path } => assert_eq!(path, "html/app.js.br"),
        other => panic!("unexpected {:?}", other),
    }
    let mut absent = s.clone();
    match absent.advance(&conf, Event::SiblingFound(false)) {
        Action::Open { path } => assert_eq!(path, "html/app.js"),
        other => panic!("unexpected {:?}", other),
    }
    match s.advance(&conf, Event::SiblingFound(true)) {
        Action::Open { path } => assert_eq!(path, "html/app.js.br"),
        other => panic!("unexpected {:?}", other),
    }
    match s.advance(&conf, Event::Opened { len: 9, is_dir: false }) {
        Action::Stream { head, .. } => {
            assert_eq!(head.status, 200);
            assert_eq!(head.coding, TransportCoding::Identity);
            assert!(head.headers.contains(&header("Content-Encoding", "br")));
        }
        other => panic!("unexpected {:?}", other),
    }
}

#[test]
fn a_missing_sibling_is_written_where_files_may_be_compressed() {
    let conf = conf_with(false, true, 4);
    let mut req = request("GET", "/page.html", "localhost");
    req.accept_encoding = "br".to_owned();
    let (mut s, _) = begin(&conf, &req);
    match s.advance(&conf, Event::SiblingFound(false)) {
        Action::Compress { from, to } => {
            assert_eq!(from, "html/page.html");
            assert_eq!(to, "html/page.html.br");
        }
        other => panic!("unexpected {:?}", other),
    }
    assert_eq!(s.phase, Phase::Compressing);
    let mut failed = s.clone();
    match failed.advance(&conf, Event::Compressed(false)) {
        Action::Open { path } => assert_eq!(path, "html/page.html"),
        other => panic!("unexpected {:?}", other),
    }
    match s.advance(&conf, Event::Compressed(true)) {
        Action::Open { path } => assert_eq!(path, "html/page.html.br"),
        other => panic!("unexpected {:?}", other),
    }
}

#[test]
fn missing_indexes_are_listed_and_directories_get_their_slash() {
    let conf = conf_with(false, true, 4);
    let (mut s, _) = begin(&conf, &request("GET", "/docs/", "localhost"));
    match s.advance(&conf, Event::Missing) {
        Action::Listing { directory, virtual_root } => {
            assert_eq!(directory, "html/docs/");
            assert_eq!(virtual_root, "html");
        }
        other => panic!("unexpected {:?}", other),
    }
    let (mut s, _) = begin(&conf, &request("GET", "/docs", "localhost"));
    assert!(matches!(s.advance(&conf, Event::Head(None)), Action::Open { .. }));
    match s.advance(&conf, Event::Opened { len: 0, is_dir: true }) {
        Action::Redirect(target) => assert_eq!(target, "/docs/"),
        other => panic!("unexpected {:?}", other),
    }
}

#[test]
fn events_out_of_turn_end_the_session() {
    let conf = conf_with(false, true, 4);
    let (mut s, _) = begin(&conf, &request("GET", "/page.html", "localhost"));
    assert!(matches!(s.advance(&conf, Event::SiblingFound(true)), Action::Fault));
    assert_eq!(s.phase, Phase::Finished);
    assert!(matches!(s.advance(&conf, Event::Missing), Action::Fault));
}

#[test]
fn a_host_is_its_own_root_where_its_folder_is_a_directory() {
    let conf = conf_with(false, true, 4);
    let (mut s, a) = Session::start(&conf, &request("GET", "/docs/", "example.org:8080"));
    assert_eq!(s.phase, Phase::Rooting);
    assert_eq!(s.host, "example.org");
    match a {
        Action::ProbeHost { folder } => assert_eq!(folder, "./example.org"),
        other => panic!("unexpected {:?}", other),
    }
    let mut absent = s.clone();
    match absent.advance(&conf, Event::HostFound(false)) {
        Action::Open { path } => assert_eq!(path, "html/docs/index.html"),
        other => panic!("unexpected {:?}", other),
    }
    assert_eq!(absent.virtual_root, "html");
    match s.advance(&conf, Event::HostFound(true)) {
        Action::Open { path } => assert_eq!(path, "example.org/docs/index.html"),
        other => panic!("unexpected {:?}", other),
    }
    assert_eq!(s.virtual_root, "example.org");
    assert_eq!(s.relative_path, "/docs/index.html");
    assert_eq!(s.mime, "text/html; charset=utf-8");
    assert_eq!(s.phase, Phase::Opening);
}

#[test]
fn barred_hosts_are_served_from_the_default_host_unasked() {
    let conf = conf_with(false, true, 4);
    for host in ["", ".git", "a/b", "a\\b", "ssl", "redir"] {
        let (s, a) = Session::start(&conf, &request("GET", "/page.html", host));
        assert_eq!(s.phase, Phase::Opening);
        assert_eq!(s.virtual_root, "html");
        match a {
            Action::Open { path } => assert_eq!(path, "html/page.html"),
            other => panic!("unexpected {:?}", other),
        }
    }
}

#[test]
fn types_that_do_not_shrink_are_not_compressed() {
    let conf = conf_with(false, true, 4);
    let mut req = request("GET", "/logo.png", "localhost");
    req.accept_encoding = "br".to_owned();
    let (mut s, _) = begin(&conf, &req);
    assert_eq!(s.phase, Phase::Probing);
    match s.advance(&conf, Event::SiblingFound(false)) {
        Action::Open { path } => assert_eq!(path, "html/logo.png"),
        other => panic!("unexpected {:?}", other),
    }
    match s.advance(&conf, Event::Opened { len: 9, is_dir: false }) {
        Action::Stream { head, .. } => assert_eq!(head.coding, TransportCoding::Unset),
        other => panic!("unexpected {:?}", other),
    }
}
