//! Forwarding a request to an upstream server: which headers go out with
//! it, and which headers of the answer come back to the client.
//!
//! Header names are compared without regard to the case of ASCII letters.

use vstd::prelude::*;
use crate::text::{chars_of, ends_with_seq};

verus! {

/// One header line.
#[derive(Clone, Debug, PartialEq, Eq)]
pub struct Header {
    pub name: String,
    pub value: String,
}

/// A header as name and value.
pub type Line = (Seq<char>, Seq<char>);

impl View for Header {
    type V = Line;

    open spec fn view(&self) -> Line {
        (self.name@, self.value@)
    }
}

/// The lines of a list of headers.
pub open spec fn lines(headers: Seq<Header>) -> Seq<Line> {
    Seq::new(headers.len(), |i: int| headers[i]@)
}

/// An ASCII capital as its small letter; any other character as itself.
pub open spec fn lower(c: char) -> char {
    if 'A' <= c && c <= 'Z' {
        ((c as u8 + 32) as u8) as char
    } else {
        c
    }
}

/// A text with its ASCII capitals made small.
pub open spec fn lowered(s: Seq<char>) -> Seq<char> {
    Seq::new(s.len(), |i: int| lower(s[i]))
}

/// `name` is `wanted`, which is written in small letters, in any case.
pub open spec fn is_named(name: Seq<char>, wanted: Seq<char>) -> bool {
    lowered(name) == wanted
}

/// A header that is meaningful for one connection only.
pub open spec fn is_hop_by_hop(name: Seq<char>) -> bool {
    is_named(name, "connection"@) || is_named(name, "proxy-connection"@) || is_named(
        name,
        "keep-alive"@,
    ) || is_named(name, "proxy-authenticate"@) || is_named(name, "proxy-authorization"@)
        || is_named(name, "te"@) || is_named(name, "trailer"@) || is_named(
        name,
        "transfer-encoding"@,
    ) || is_named(name, "upgrade"@)
}

/// Some line of the list has the name `wanted`.
pub open spec fn has_line(list: Seq<Line>, wanted: Seq<char>) -> bool {
    exists|i: int| 0 <= i < list.len() && is_named(#[trigger] list[i].0, wanted)
}

/// What becomes of one request header on its way upstream: a hop-by-hop
/// header and `Accept-Encoding` are dropped, `X-Forwarded-For` gets the
/// client's address appended, and any other header is copied.
pub open spec fn outbound_line(line: Line, client_ip: Seq<char>) -> Option<Line> {
    if is_hop_by_hop(line.0) || is_named(line.0, "accept-encoding"@) {
        None
    } else if is_named(line.0, "x-forwarded-for"@) {
        Some(("X-Forwarded-For"@, line.1 + ", "@ + client_ip))
    } else {
        Some(line)
    }
}

/// The request headers that are carried over, in order.
pub open spec fn carried(list: Seq<Line>, client_ip: Seq<char>) -> Seq<Line>
    decreases list.len(),
{
    if list.len() == 0 {
        Seq::empty()
    } else {
        match outbound_line(list.last(), client_ip) {
            Some(line) => carried(list.drop_last(), client_ip).push(line),
            None => carried(list.drop_last(), client_ip),
        }
    }
}

/// The headers that are set after those carried over: `X-Forwarded-For`
/// with the client's address where the request had none, `Accept-Encoding`
/// asking for no compression, and a `User-Agent` where the request had none.
pub open spec fn appended(list: Seq<Line>, client_ip: Seq<char>) -> Seq<Line> {
    let first = if has_line(list, "x-forwarded-for"@) {
        Seq::<Line>::empty()
    } else {
        seq![("X-Forwarded-For"@, client_ip)]
    };
    let last = if has_line(list, "user-agent"@) {
        Seq::<Line>::empty()
    } else {
        seq![("User-Agent"@, "KatWebX-Proxy"@)]
    };
    first + seq![("Accept-Encoding"@, "none"@)] + last
}

/// The headers of the request that goes upstream.
pub open spec fn outbound(list: Seq<Line>, client_ip: Seq<char>) -> Seq<Line> {
    carried(list, client_ip) + appended(list, client_ip)
}

/// The headers of the upstream answer that go back to the client: all but
/// `Content-Length`, in order.
pub open spec fn relayed(list: Seq<Line>) -> Seq<Line>
    decreases list.len(),
{
    if list.len() == 0 {
        Seq::empty()
    } else if is_named(list.last().0, "content-length"@) {
        relayed(list.drop_last())
    } else {
        relayed(list.drop_last()).push(list.last())
    }
}

/// How long a pooled upstream connection is kept: four times the stream
/// timeout, as far as 64 bits go.
pub open spec fn pool_seconds(stream_timeout: u64) -> u64 {
    if stream_timeout <= u64::MAX / 4 {
        (stream_timeout * 4) as u64
    } else {
        u64::MAX
    }
}

/// An ASCII capital as its small letter; any other character as itself.
pub fn to_lower(c: char) -> (r: char)
    ensures
        r == lower(c),
{
    if c >= 'A' && c <= 'Z' {
        (c as u8 + 32) as char
    } else {
        c
    }
}

/// Whether `name` is `wanted`, which is written in small letters, in any
/// case.
pub fn named(name: &[char], wanted: &[char]) -> (r: bool)
    ensures
        r == is_named(name@, wanted@),
{
    if name.len() != wanted.len() {
        return false;
    }
    let n: usize = name.len();
    let mut i: usize = 0;
    while i < n
        invariant
            n == name@.len(),
            n == wanted@.len(),
            i <= n,
            forall|j: int| 0 <= j < i ==> lower(name@[j]) == wanted@[j],
        decreases n - i,
    {
        if to_lower(name[i]) != wanted[i] {
            proof {
                assert(lowered(name@)[i as int] != wanted@[i as int]);
            }
            return false;
        }
        i += 1;
    }
    proof {
        assert(lowered(name@) =~= wanted@);
    }
    true
}

/// Whether a header is meaningful for one connection only.
pub fn hop_by_hop(name: &[char]) -> (r: bool)
    ensures
        r == is_hop_by_hop(name@),
{
    named(name, chars_of("connection").as_slice()) || named(
        name,
        chars_of("proxy-connection").as_slice(),
    ) || named(name, chars_of("keep-alive").as_slice()) || named(
        name,
        chars_of("proxy-authenticate").as_slice(),
    ) || named(name, chars_of("proxy-authorization").as_slice()) || named(
        name,
        chars_of("te").as_slice(),
    ) || named(name, chars_of("trailer").as_slice()) || named(
        name,
        chars_of("transfer-encoding").as_slice(),
    ) || named(name, chars_of("upgrade").as_slice())
}

/// Whether some header of the list has the name `wanted`, which is written
/// in small letters.
pub fn has_header(headers: &Vec<Header>, wanted: &str) -> (r: bool)
    ensures
        r == has_line(lines(headers@), wanted@),
{
    let want = chars_of(wanted);
    let mut i: usize = 0;
    while i < headers.len()
        invariant
            i <= headers@.len(),
            want@ == wanted@,
            forall|j: int| 0 <= j < i ==> !is_named(#[trigger] lines(headers@)[j].0, wanted@),
        decreases headers@.len() - i,
    {
        let name = chars_of(headers[i].name.as_str());
        if named(name.as_slice(), want.as_slice()) {
            proof {
                assert(is_named(lines(headers@)[i as int].0, wanted@));
            }
            return true;
        }
        i += 1;
    }
    false
}

/// The headers to send upstream with a request that came from `client_ip`.
/// No hop-by-hop header is among them, every `X-Forwarded-For` ends with the
/// client's address, and `Accept-Encoding` asks for no compression.
pub fn forward_headers(headers: &Vec<Header>, client_ip: &str) -> (out: Vec<Header>)
    ensures
        lines(out@) == outbound(lines(headers@), client_ip@),
{
    let ghost list = lines(headers@);
    let mut out: Vec<Header> = Vec::new();
    let mut i: usize = 0;
    proof {
        assert(list.take(0) =~= Seq::<Line>::empty());
        assert(lines(out@) =~= Seq::<Line>::empty());
    }
    while i < headers.len()
        invariant
            i <= headers@.len(),
            list == lines(headers@),
            lines(out@) == carried(list.take(i as int), client_ip@),
        decreases headers@.len() - i,
    {
        let header = &headers[i];
        let name = chars_of(header.name.as_str());
        proof {
            assert(list.take(i + 1).drop_last() =~= list.take(i as int));
            assert(list.take(i + 1).last() == header@);
        }
        if hop_by_hop(name.as_slice()) || named(
            name.as_slice(),
            chars_of("accept-encoding").as_slice(),
        ) {
        } else if named(name.as_slice(), chars_of("x-forwarded-for").as_slice()) {
            let value = header.value.clone().concat(", ").concat(client_ip);
            let line = Header { name: String::from_str("X-Forwarded-For"), value };
            proof {
                assert(lines(out@.push(line)) =~= lines(out@).push(line@));
            }
            out.push(line);
        } else {
            let line = Header { name: header.name.clone(), value: header.value.clone() };
            proof {
                assert(lines(out@.push(line)) =~= lines(out@).push(line@));
            }
            out.push(line);
        }
        i += 1;
    }
    proof {
        assert(list.take(headers@.len() as int) =~= list);
    }
    let ghost kept = lines(out@);
    if !has_header(headers, "x-forwarded-for") {
        let line = Header {
            name: String::from_str("X-Forwarded-For"),
            value: String::from_str(client_ip),
        };
        proof {
            assert(lines(out@.push(line)) =~= lines(out@).push(line@));
        }
        out.push(line);
    }
    let coding = Header {
        name: String::from_str("Accept-Encoding"),
        value: String::from_str("none"),
    };
    proof {
        assert(lines(out@.push(coding)) =~= lines(out@).push(coding@));
    }
    out.push(coding);
    if !has_header(headers, "user-agent") {
        let line = Header {
            name: String::from_str("User-Agent"),
            value: String::from_str("KatWebX-Proxy"),
        };
        proof {
            assert(lines(out@.push(line)) =~= lines(out@).push(line@));
        }
        out.push(line);
    }
    proof {
        assert(lines(out@) =~= kept + appended(list, client_ip@));
    }
    out
}

/// The headers of an upstream answer to give back to the client, and
/// whether the answer is already encoded, so that the transport must not
/// compress it again. `Content-Length` is left out, since the body is
/// streamed; `Content-Encoding` itself is relayed.
pub fn relay_headers(headers: &Vec<Header>) -> (r: (Vec<Header>, bool))
    ensures
        lines(r.0@) == relayed(lines(headers@)),
        r.1 == has_line(lines(headers@), "content-encoding"@),
{
    let ghost list = lines(headers@);
    let mut out: Vec<Header> = Vec::new();
    let mut i: usize = 0;
    proof {
        assert(list.take(0) =~= Seq::<Line>::empty());
        assert(lines(out@) =~= Seq::<Line>::empty());
    }
    while i < headers.len()
        invariant
            i <= headers@.len(),
            list == lines(headers@),
            lines(out@) == relayed(list.take(i as int)),
        decreases headers@.len() - i,
    {
        let header = &headers[i];
        let name = chars_of(header.name.as_str());
        proof {
            assert(list.take(i + 1).drop_last() =~= list.take(i as int));
            assert(list.take(i + 1).last() == header@);
        }
        if !named(name.as_slice(), chars_of("content-length").as_slice()) {
            let line = Header { name: header.name.clone(), value: header.value.clone() };
            proof {
                assert(lines(out@.push(line)) =~= lines(out@).push(line@));
            }
            out.push(line);
        }
        i += 1;
    }
    proof {
        assert(list.take(headers@.len() as int) =~= list);
    }
    (out, has_header(headers, "content-encoding"))
}

/// How long a pooled upstream connection is kept, in seconds.
pub fn pool_lifetime(stream_timeout: u64) -> (r: u64)
    ensures
        r == pool_seconds(stream_timeout),
{
    if stream_timeout <= u64::MAX / 4 {
        stream_timeout * 4
    } else {
        u64::MAX
    }
}

/// The names that are set on the way upstream are what they say, and none
/// of them is a hop-by-hop header.
proof fn lemma_set_names()
    ensures
        is_named("X-Forwarded-For"@, "x-forwarded-for"@),
        !is_hop_by_hop("X-Forwarded-For"@),
        !is_hop_by_hop("Accept-Encoding"@),
        !is_hop_by_hop("User-Agent"@),
        !is_named("Accept-Encoding"@, "x-forwarded-for"@),
        !is_named("User-Agent"@, "x-forwarded-for"@),
{
    reveal_strlit("X-Forwarded-For");
    reveal_strlit("x-forwarded-for");
    reveal_strlit("Accept-Encoding");
    reveal_strlit("User-Agent");
    reveal_strlit("connection");
    reveal_strlit("proxy-connection");
    reveal_strlit("keep-alive");
    reveal_strlit("proxy-authenticate");
    reveal_strlit("proxy-authorization");
    reveal_strlit("te");
    reveal_strlit("trailer");
    reveal_strlit("transfer-encoding");
    reveal_strlit("upgrade");
    assert(lowered("X-Forwarded-For"@) =~= "x-forwarded-for"@);
    assert(lowered("User-Agent"@)[0] == 'u');
    assert(lowered("Accept-Encoding"@)[0] == 'a');
    assert(lowered("X-Forwarded-For"@).len() == 15);
    assert(lowered("Accept-Encoding"@).len() == 15);
    assert(lowered("User-Agent"@).len() == 10);
}

/// A text that ends with `tail` after anything.
proof fn lemma_ends_with_appended(head: Seq<char>, tail: Seq<char>)
    ensures
        ends_with_seq(head + tail, tail),
{
    let s = head + tail;
    assert(s.subrange(s.len() - tail.len(), s.len() as int) =~= tail);
}

/// Of the headers carried over, none is hop-by-hop, and each
/// `X-Forwarded-For` ends with the client's address.
proof fn lemma_carried(list: Seq<Line>, client_ip: Seq<char>)
    ensures
        forall|i: int|
            0 <= i < carried(list, client_ip).len() ==> !is_hop_by_hop(
                #[trigger] carried(list, client_ip)[i].0,
            ),
        forall|i: int|
            0 <= i < carried(list, client_ip).len() && is_named(
                #[trigger] carried(list, client_ip)[i].0,
                "x-forwarded-for"@,
            ) ==> ends_with_seq(carried(list, client_ip)[i].1, client_ip),
        has_line(list, "x-forwarded-for"@) ==> has_line(
            carried(list, client_ip),
            "x-forwarded-for"@,
        ),
    decreases list.len(),
{
    lemma_set_names();
    if list.len() > 0 {
        let rest = list.drop_last();
        lemma_carried(rest, client_ip);
        let before = carried(rest, client_ip);
        let all = carried(list, client_ip);
        match outbound_line(list.last(), client_ip) {
            Some(line) => {
                assert(all == before.push(line));
                lemma_ends_with_appended(list.last().1 + ", "@, client_ip);
                assert forall|i: int| 0 <= i < all.len() implies !is_hop_by_hop(
                    #[trigger] all[i].0,
                ) by {
                    if i < before.len() {
                        assert(all[i] == before[i]);
                    }
                }
                assert forall|i: int|
                    0 <= i < all.len() && is_named(
                        #[trigger] all[i].0,
                        "x-forwarded-for"@,
                    ) implies ends_with_seq(all[i].1, client_ip) by {
                    if i < before.len() {
                        assert(all[i] == before[i]);
                    }
                }
            },
            None => {},
        }
        if has_line(list, "x-forwarded-for"@) {
            let k = choose|k: int|
                0 <= k < list.len() && is_named(#[trigger] list[k].0, "x-forwarded-for"@);
            if k < rest.len() {
                assert(rest[k] == list[k]);
                assert(has_line(rest, "x-forwarded-for"@));
                let j = choose|j: int|
                    0 <= j < before.len() && is_named(
                        #[trigger] before[j].0,
                        "x-forwarded-for"@,
                    );
                assert(all[j] == before[j]);
            } else {
                reveal_strlit("x-forwarded-for");
                reveal_strlit("accept-encoding");
                assert("x-forwarded-for"@[0] != "accept-encoding"@[0]);
                assert(!is_named(list.last().0, "accept-encoding"@));
                assert(is_named(all[all.len() - 1].0, "x-forwarded-for"@));
            }
        }
    }
}

/// No hop-by-hop header goes upstream.
pub proof fn lemma_no_hop_by_hop_goes_out(list: Seq<Line>, client_ip: Seq<char>)
    ensures
        forall|i: int|
            0 <= i < outbound(list, client_ip).len() ==> !is_hop_by_hop(
                #[trigger] outbound(list, client_ip)[i].0,
            ),
{
    lemma_set_names();
    lemma_carried(list, client_ip);
    let kept = carried(list, client_ip);
    let tail = appended(list, client_ip);
    assert forall|i: int| 0 <= i < outbound(list, client_ip).len() implies !is_hop_by_hop(
        #[trigger] outbound(list, client_ip)[i].0,
    ) by {
        if i < kept.len() {
            assert(outbound(list, client_ip)[i] == kept[i]);
        } else {
            assert(outbound(list, client_ip)[i] == tail[i - kept.len()]);
        }
    }
}

/// The request that goes upstream has an `X-Forwarded-For` header, and each
/// one it has ends with the address of the client.
pub proof fn lemma_forwarded_for_ends_with_client(list: Seq<Line>, client_ip: Seq<char>)
    ensures
        has_line(outbound(list, client_ip), "x-forwarded-for"@),
        forall|i: int|
            0 <= i < outbound(list, client_ip).len() && is_named(
                #[trigger] outbound(list, client_ip)[i].0,
                "x-forwarded-for"@,
            ) ==> ends_with_seq(outbound(list, client_ip)[i].1, client_ip),
{
    lemma_set_names();
    lemma_carried(list, client_ip);
    lemma_ends_with_appended(Seq::empty(), client_ip);
    assert(Seq::<char>::empty() + client_ip =~= client_ip);
    let kept = carried(list, client_ip);
    let tail = appended(list, client_ip);
    let all = outbound(list, client_ip);
    assert forall|i: int|
        0 <= i < all.len() && is_named(#[trigger] all[i].0, "x-forwarded-for"@) implies ends_with_seq(
        all[i].1,
        client_ip,
    ) by {
        if i < kept.len() {
            assert(all[i] == kept[i]);
        } else {
            assert(all[i] == tail[i - kept.len()]);
        }
    }
    if has_line(list, "x-forwarded-for"@) {
        let j = choose|j: int|
            0 <= j < kept.len() && is_named(#[trigger] kept[j].0, "x-forwarded-for"@);
        assert(all[j] == kept[j]);
    } else {
        assert(all[kept.len() as int] == tail[0]);
        assert(is_named(all[kept.len() as int].0, "x-forwarded-for"@));
    }
}

} // verus!
