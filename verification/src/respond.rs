//! From a decision to a response: what is answered without touching a file,
//! and the headers that go out with a file.

use vstd::prelude::*;
use crate::config::Config;
use crate::number::{decimal_text, int_text, number_text, signed_text};
use crate::proxy::{lines, Header, Line};
use crate::range::{whole, DeliveryPlan};
use crate::text::{
    chars_of, ends_with_chars, ends_with_seq, port_suffix, trim_host, trim_port, without_port,
};

verus! {

/// What is answered when the file to serve cannot be opened.
#[derive(Clone, Copy, Debug, PartialEq, Eq, Structural)]
pub enum Missing {
    /// The index of a directory is missing: list the directory.
    Listing,
    /// Answer 404.
    NotFound,
}

/// How the transport may compress a body.
#[derive(Clone, Copy, Debug, PartialEq, Eq, Structural)]
pub enum TransportCoding {
    /// The body goes out as it is.
    Identity,
    /// The transport compresses as the client accepts.
    Auto,
    /// Nothing is asked of the transport.
    Unset,
}

/// The head of the response that carries a file.
#[derive(Clone, Debug, PartialEq, Eq)]
pub struct FileResponse {
    pub status: u16,
    pub headers: Vec<Header>,
    pub coding: TransportCoding,
}

/// Files are served for GET and HEAD.
pub open spec fn reads_only(method: Seq<char>) -> bool {
    method == "GET"@ || method == "HEAD"@
}

/// Where a plaintext request is sent when HTTPS is enforced: the same host
/// and path under `https`, with the port of the TLS address unless it is 443.
pub open spec fn upgrade_target(host: Seq<char>, tls_addr: Seq<char>, path: Seq<char>) -> Seq<char> {
    if port_suffix(tls_addr) == ":443"@ {
        "https://"@ + without_port(host) + path
    } else {
        "https://"@ + without_port(host) + port_suffix(tls_addr) + path
    }
}

/// The `Cache-Control` value for a caching timeout in hours.
pub open spec fn cache_control_text(hours: i64) -> Seq<char> {
    if hours == 0 {
        "no-store, must-revalidate"@
    } else {
        "max-age="@ + int_text(hours * 3600) + ", public, stale-while-revalidate="@ + int_text(
            hours * 900,
        )
    }
}

/// A plan is partial when it is not the whole file.
pub open spec fn is_partial(plan: DeliveryPlan, content_length: u64) -> bool {
    plan != whole(content_length)
}

/// The `Content-Range` value of a plan that holds at least one byte.
pub open spec fn content_range_text(plan: DeliveryPlan, content_length: u64) -> Seq<char> {
    "bytes "@ + decimal_text(plan.offset as nat) + "-"@ + decimal_text(
        (plan.offset + plan.length - 1) as nat,
    ) + "/"@ + decimal_text(content_length as nat)
}

/// The `Content-Range` line of a plan: for a partial plan that holds at
/// least one byte.
pub open spec fn range_lines(plan: DeliveryPlan, content_length: u64) -> Seq<Line> {
    if is_partial(plan, content_length) && plan.length > 0 {
        seq![("Content-Range"@, content_range_text(plan, content_length))]
    } else {
        Seq::empty()
    }
}

/// The headers that protect the client.
pub open spec fn protective_lines() -> Seq<Line> {
    seq![
        ("Referrer-Policy"@, "no-referrer"@),
        ("X-Content-Type-Options"@, "nosniff"@),
        (
            "Content-Security-Policy"@,
            "default-src https: data: 'unsafe-inline' 'unsafe-eval' 'self'; frame-ancestors 'self'"@,
        ),
        ("X-XSS-Protection"@, "1; mode=block"@),
    ]
}

/// The headers of a response that carries a file, in order.
pub open spec fn file_lines(
    caching_timeout: i64,
    hsts: bool,
    protect: bool,
    mime: Seq<char>,
    pre_encoded: bool,
    plan: DeliveryPlan,
    content_length: u64,
) -> Seq<Line> {
    seq![("Content-Type"@, mime), ("Accept-Ranges"@, "bytes"@)] + (if pre_encoded {
        seq![("Content-Encoding"@, "br"@)]
    } else {
        Seq::<Line>::empty()
    }) + range_lines(plan, content_length) + seq![
        ("Cache-Control"@, cache_control_text(caching_timeout)),
    ] + (if hsts {
        seq![("Strict-Transport-Security"@, "max-age=31536000;includeSubDomains;preload"@)]
    } else {
        Seq::<Line>::empty()
    }) + (if protect {
        protective_lines()
    } else {
        Seq::<Line>::empty()
    }) + seq![("Server"@, "KatWebX-Alpha"@)]
}

/// How the transport treats the body of a file: a compressed sibling goes
/// out as it is; another file is compressed where its type allows it.
pub open spec fn coding_of(pre_encoded: bool, compressible: bool) -> TransportCoding {
    if pre_encoded {
        TransportCoding::Identity
    } else if compressible {
        TransportCoding::Auto
    } else {
        TransportCoding::Unset
    }
}

/// The page that goes out with a redirect.
pub open spec fn redirect_page(target: Seq<char>) -> Seq<char> {
    "<a href='"@ + target + "'>If this redirect does not work, click here</a>"@
}

/// Whether files are served for a method.
pub fn serves(method: &str) -> (r: bool)
    ensures
        r == reads_only(method@),
{
    let given: String = String::from_str(method);
    given == String::from_str("GET") || given == String::from_str("HEAD")
}

/// Where a plaintext request is sent when HTTPS is enforced.
pub fn hsts_target(host: &str, tls_addr: &str, path: &str) -> (r: String)
    ensures
        r@ == upgrade_target(host@, tls_addr@, path@),
{
    let port = trim_host(tls_addr);
    let base = String::from_str("https://").concat(trim_port(host));
    if String::from_str(port) == String::from_str(":443") {
        base.concat(path)
    } else {
        base.concat(port).concat(path)
    }
}

/// What is answered when the file at `relative_path` cannot be opened: a
/// listing where the path is the index of a directory, else 404.
pub fn missing_file(relative_path: &str) -> (r: Missing)
    ensures
        r == if ends_with_seq(relative_path@, "/index.html"@) {
            Missing::Listing
        } else {
            Missing::NotFound
        },
{
    let chars = chars_of(relative_path);
    let index = chars_of("/index.html");
    if ends_with_chars(chars.as_slice(), index.as_slice()) {
        Missing::Listing
    } else {
        Missing::NotFound
    }
}

/// Where a request for a directory without a trailing slash is sent.
pub fn directory_target(request_path: &str) -> (r: String)
    ensures
        r@ == request_path@ + "/"@,
{
    String::from_str(request_path).concat("/")
}

/// The page that goes out with a redirect to `target`.
pub fn redirect_body(target: &str) -> (r: String)
    ensures
        r@ == redirect_page(target@),
{
    String::from_str("<a href='").concat(target).concat(
        "'>If this redirect does not work, click here</a>",
    )
}

/// The `Cache-Control` value for a caching timeout in hours: nothing is
/// stored for a timeout of zero; else the age is the timeout in seconds and
/// a stale answer may be used for a quarter of it.
pub fn cache_control(caching_timeout: i64) -> (r: String)
    ensures
        r@ == cache_control_text(caching_timeout),
{
    if caching_timeout == 0 {
        String::from_str("no-store, must-revalidate")
    } else {
        let age: i128 = caching_timeout as i128 * 3600;
        let stale: i128 = caching_timeout as i128 * 900;
        String::from_str("max-age=").concat(signed_text(age).as_str()).concat(
            ", public, stale-while-revalidate=",
        ).concat(signed_text(stale).as_str())
    }
}

/// The `Content-Range` value of a plan, where the plan is partial and holds
/// at least one byte.
pub fn content_range(plan: DeliveryPlan, content_length: u64) -> (r: Option<String>)
    ensures
        match r {
            Some(text) => range_lines(plan, content_length) == seq![("Content-Range"@, text@)],
            None => range_lines(plan, content_length) == Seq::<Line>::empty(),
        },
{
    if (plan.offset != 0 || plan.length != content_length) && plan.length > 0 {
        let last: u128 = plan.offset as u128 + plan.length as u128 - 1;
        Some(
            String::from_str("bytes ").concat(number_text(plan.offset as u128).as_str()).concat(
                "-",
            ).concat(number_text(last).as_str()).concat("/").concat(
                number_text(content_length as u128).as_str(),
            ),
        )
    } else {
        None
    }
}

fn push_line(out: &mut Vec<Header>, name: &str, value: &str)
    ensures
        lines(final(out)@) == lines(old(out)@).push((name@, value@)),
{
    let line = Header { name: String::from_str(name), value: String::from_str(value) };
    proof {
        assert(lines(out@.push(line)) =~= lines(out@).push(line@));
    }
    out.push(line);
}

/// The head of the response that carries a file of type `mime`, served by
/// `plan` out of `content_length` bytes. A partial plan is answered 206 and
/// says which bytes it holds; a compressed sibling is marked as brotli and
/// goes out as it is.
pub fn file_response(
    conf: &Config,
    mime: &str,
    pre_encoded: bool,
    compressible: bool,
    plan: DeliveryPlan,
    content_length: u64,
) -> (r: FileResponse)
    ensures
        lines(r.headers@) == file_lines(
            conf.caching_timeout,
            conf.hsts,
            conf.protect,
            mime@,
            pre_encoded,
            plan,
            content_length,
        ),
        r.status == if is_partial(plan, content_length) {
            206u16
        } else {
            200u16
        },
        r.coding == coding_of(pre_encoded, compressible),
{
    let mut out: Vec<Header> = Vec::new();
    proof {
        assert(lines(out@) =~= Seq::<Line>::empty());
    }
    push_line(&mut out, "Content-Type", mime);
    push_line(&mut out, "Accept-Ranges", "bytes");
    if pre_encoded {
        push_line(&mut out, "Content-Encoding", "br");
    }
    if let Some(range) = content_range(plan, content_length) {
        push_line(&mut out, "Content-Range", range.as_str());
    }
    push_line(&mut out, "Cache-Control", cache_control(conf.caching_timeout).as_str());
    if conf.hsts {
        push_line(
            &mut out,
            "Strict-Transport-Security",
            "max-age=31536000;includeSubDomains;preload",
        );
    }
    if conf.protect {
        push_line(&mut out, "Referrer-Policy", "no-referrer");
        push_line(&mut out, "X-Content-Type-Options", "nosniff");
        push_line(
            &mut out,
            "Content-Security-Policy",
            "default-src https: data: 'unsafe-inline' 'unsafe-eval' 'self'; frame-ancestors 'self'",
        );
        push_line(&mut out, "X-XSS-Protection", "1; mode=block");
    }
    push_line(&mut out, "Server", "KatWebX-Alpha");
    proof {
        assert(lines(out@) =~= file_lines(
            conf.caching_timeout,
            conf.hsts,
            conf.protect,
            mime@,
            pre_encoded,
            plan,
            content_length,
        ));
    }
    let partial: bool = plan.offset != 0 || plan.length != content_length;
    FileResponse {
        status: if partial {
            206
        } else {
            200
        },
        headers: out,
        coding: if pre_encoded {
            TransportCoding::Identity
        } else if compressible {
            TransportCoding::Auto
        } else {
            TransportCoding::Unset
        },
    }
}

} // verus!
