//! The front end's single entry point, as a state machine: each step takes
//! what the outside found (a file's first bytes, whether a file exists) and
//! says what to do next, until the request has its answer.
//!
//! Nothing here touches a file or a socket. The caller performs each action
//! and hands back the event that tells how it went.

use vstd::prelude::*;
use crate::config::{folder_of, Config};
use crate::mime::{
    completed, guessed_type, is_unknown, mime_from_content, mime_from_name, type_of_content,
};
use crate::proxy::{forward_headers, lines, outbound, pool_lifetime, pool_seconds, Header, Line};
use crate::range::{plan, planned};
use crate::resolution::{serve, shaped, Outcome, Resolution};
use crate::respond::{
    coding_of, directory_target, file_lines, file_response, hsts_target, is_partial,
    missing_file, reads_only, serves, upgrade_target, FileResponse, Missing, TransportCoding,
};
use crate::stream::{
    advertises_brotli, chosen, is_compressible, is_compressible_type, is_pre_encoded,
    select_representation, sibling_path, wants_brotli, ChunkedReader, Representation,
};
use crate::text::{ends_with_seq, trim_port, without_port};

verus! {

/// A request as the front end hands it over.
#[derive(Clone, Debug)]
pub struct Request {
    pub method: String,
    pub path: String,
    pub host: String,
    pub authorization: String,
    pub accept_encoding: String,
    pub range: Option<String>,
    pub headers: Vec<Header>,
    pub client_ip: String,
    /// Whether the request came over TLS.
    pub secure: bool,
}

/// What a session waits for.
#[derive(Clone, Copy, Debug, PartialEq, Eq, Structural)]
pub enum Phase {
    /// Whether the host names a directory under the root folder.
    Rooting,
    /// The first bytes of the file, to tell its type.
    Sniffing,
    /// Whether the compressed sibling exists.
    Probing,
    /// The compressed sibling being written.
    Compressing,
    /// The file being opened.
    Opening,
    /// Nothing: the request has its answer.
    Finished,
}

/// The state of one request between two steps.
#[derive(Clone, Debug)]
pub struct Session {
    pub phase: Phase,
    pub request_path: String,
    /// The host of the request, without its port.
    pub host: String,
    pub range: Option<String>,
    pub brotli: bool,
    pub virtual_root: String,
    pub relative_path: String,
    pub full_path: String,
    pub mime: String,
}

/// What the caller is to do next. The first six answer the request; the
/// others ask for one piece of outside work.
#[derive(Clone, Debug)]
pub enum Action {
    /// Answer with a permanent redirect.
    Redirect(String),
    /// Answer 401.
    Unauthorized,
    /// Answer 405.
    MethodNotAllowed,
    /// Answer 404.
    NotFound,
    /// Answer with the listing of a directory of a virtual root.
    Listing { directory: String, virtual_root: String },
    /// Forward the request upstream with these headers, on a connection
    /// that is kept for this many seconds, and relay the answer.
    Forward { url: String, headers: Vec<Header>, pool_lifetime: u64 },
    /// Find out whether a folder is a directory.
    ProbeHost { folder: String },
    /// Read the first bytes of a file.
    ReadHead { path: String, max_bytes: u64 },
    /// Find out whether a file exists.
    ProbeSibling { path: String },
    /// Write the compressed sibling of a file.
    Compress { from: String, to: String },
    /// Open a file, and tell its length and whether it is a directory.
    Open { path: String },
    /// Answer with this head, and stream the file as the reader says.
    Stream { path: String, head: FileResponse, reader: ChunkedReader },
    /// The event does not belong to the session's phase: answer 500.
    Fault,
}

/// How an action went.
#[derive(Clone, Debug)]
pub enum Event {
    /// Whether the folder is a directory.
    HostFound(bool),
    /// The first bytes of the file, or `None` where it cannot be read.
    Head(Option<Vec<u8>>),
    /// Whether the compressed sibling exists.
    SiblingFound(bool),
    /// Whether the compressed sibling was written.
    Compressed(bool),
    /// The file is open: its length, and whether it is a directory.
    Opened { len: u64, is_dir: bool },
    /// The file cannot be opened.
    Missing,
}

/// An action, with its texts as sequences of characters.
pub enum ActionView {
    Redirect(Seq<char>),
    Unauthorized,
    MethodNotAllowed,
    NotFound,
    Listing { directory: Seq<char>, virtual_root: Seq<char> },
    Forward { url: Seq<char>, headers: Seq<Line>, pool_lifetime: u64 },
    ProbeHost { folder: Seq<char> },
    ReadHead { path: Seq<char>, max_bytes: u64 },
    ProbeSibling { path: Seq<char> },
    Compress { from: Seq<char>, to: Seq<char> },
    Open { path: Seq<char> },
    Stream {
        path: Seq<char>,
        status: u16,
        headers: Seq<Line>,
        coding: TransportCoding,
        reader: ChunkedReader,
    },
    Fault,
}

impl View for Action {
    type V = ActionView;

    open spec fn view(&self) -> ActionView {
        match self {
            Action::Redirect(target) => ActionView::Redirect(target@),
            Action::Unauthorized => ActionView::Unauthorized,
            Action::MethodNotAllowed => ActionView::MethodNotAllowed,
            Action::NotFound => ActionView::NotFound,
            Action::Listing { directory, virtual_root } => ActionView::Listing {
                directory: directory@,
                virtual_root: virtual_root@,
            },
            Action::Forward { url, headers, pool_lifetime } => ActionView::Forward {
                url: url@,
                headers: lines(headers@),
                pool_lifetime: *pool_lifetime,
            },
            Action::ProbeHost { folder } => ActionView::ProbeHost { folder: folder@ },
            Action::ReadHead { path, max_bytes } => ActionView::ReadHead {
                path: path@,
                max_bytes: *max_bytes,
            },
            Action::ProbeSibling { path } => ActionView::ProbeSibling { path: path@ },
            Action::Compress { from, to } => ActionView::Compress { from: from@, to: to@ },
            Action::Open { path } => ActionView::Open { path: path@ },
            Action::Stream { path, head, reader } => ActionView::Stream {
                path: path@,
                status: head.status,
                headers: lines(head.headers@),
                coding: head.coding,
                reader: *reader,
            },
            Action::Fault => ActionView::Fault,
        }
    }
}

/// The text of an optional header value.
pub open spec fn range_text(range: Option<String>) -> Option<Seq<char>> {
    match range {
        Some(r) => Some(r@),
        None => None,
    }
}

/// How a file is fetched once its type is known: by way of its compressed
/// sibling where the client takes brotli.
pub open spec fn fetch_action(brotli: bool, full_path: Seq<char>) -> ActionView {
    if brotli {
        ActionView::ProbeSibling { path: full_path + ".br"@ }
    } else {
        ActionView::Open { path: full_path }
    }
}

/// The phase that goes with `fetch_action`.
pub open spec fn fetch_phase(brotli: bool) -> Phase {
    if brotli {
        Phase::Probing
    } else {
        Phase::Opening
    }
}

/// Whether a plaintext request is to be sent to HTTPS.
pub open spec fn upgrades(conf: &Config, req: Request) -> bool {
    conf.hsts && !req.secure
}

/// The media type that a file has from its name: the guess, completed, or
/// the guess itself where it says nothing.
pub open spec fn enter_mime(full_path: Seq<char>) -> Seq<char> {
    if is_unknown(guessed_type(full_path)) {
        guessed_type(full_path)
    } else {
        completed(guessed_type(full_path))
    }
}

/// The first action on a file: its first bytes are read where its name
/// says nothing of its type; else it is fetched.
pub open spec fn enter_action(brotli: bool, full_path: Seq<char>) -> ActionView {
    if is_unknown(guessed_type(full_path)) {
        ActionView::ReadHead { path: full_path, max_bytes: 512 }
    } else {
        fetch_action(brotli, full_path)
    }
}

/// The phase that goes with `enter_action`.
pub open spec fn enter_phase(brotli: bool, full_path: Seq<char>) -> Phase {
    if is_unknown(guessed_type(full_path)) {
        Phase::Sniffing
    } else {
        fetch_phase(brotli)
    }
}

/// The file that is served for a request path from a virtual root.
pub open spec fn file_of(root: Seq<char>, request_path: Seq<char>) -> Seq<char> {
    root + shaped(request_path)
}

/// The action that answers a request which the rules decide.
pub open spec fn answer_of(conf: &Config, req: Request, o: Outcome) -> ActionView {
    match o {
        Outcome::Unauthorized => ActionView::Unauthorized,
        Outcome::Redirect(target) => ActionView::Redirect(target),
        Outcome::Proxy(url) => ActionView::Forward {
            url,
            headers: outbound(lines(req.headers@), req.client_ip@),
            pool_lifetime: pool_seconds(conf.stream_timeout as u64),
        },
        Outcome::Serve { virtual_root, relative_path, full_path } => enter_action(
            advertises_brotli(req.accept_encoding@),
            full_path,
        ),
    }
}

/// The first action for a request. A plaintext request is upgraded where
/// HTTPS is enforced. Else the rules are followed. Where they leave the
/// request to the files, only GET and HEAD go on: a host that is barred is
/// served from the default host, and of any other host the file system is
/// asked whether its folder under the root folder is a directory.
pub open spec fn first_action(conf: &Config, req: Request) -> ActionView {
    if upgrades(conf, req) {
        ActionView::Redirect(upgrade_target(req.host@, conf.tls_addr@, req.path@))
    } else {
        match conf.table.routed(req.path@, req.host@, req.authorization@) {
            Some(o) => answer_of(conf, req, o),
            None => if !reads_only(req.method@) {
                ActionView::MethodNotAllowed
            } else if conf.table.barred(req.host@) {
                enter_action(advertises_brotli(req.accept_encoding@), file_of("html"@, req.path@))
            } else {
                ActionView::ProbeHost { folder: folder_of(conf.root_folder@, req.host@) }
            },
        }
    }
}

/// The phase after the first action.
pub open spec fn first_phase(conf: &Config, req: Request) -> Phase {
    if upgrades(conf, req) {
        Phase::Finished
    } else {
        match conf.table.routed(req.path@, req.host@, req.authorization@) {
            Some(o) => Phase::Finished,
            None => if !reads_only(req.method@) {
                Phase::Finished
            } else if conf.table.barred(req.host@) {
                enter_phase(advertises_brotli(req.accept_encoding@), file_of("html"@, req.path@))
            } else {
                Phase::Rooting
            },
        }
    }
}

/// A session holds the file at `request_path` under the virtual root
/// `root`, with the type that its name gives it.
pub open spec fn entered(s: Session, root: Seq<char>) -> bool {
    &&& s.virtual_root@ == root
    &&& s.relative_path@ == shaped(s.request_path@)
    &&& s.full_path@ == file_of(root, s.request_path@)
    &&& s.mime@ == enter_mime(s.full_path@)
}

/// What a session holds after the first action, where it goes on: the
/// request, and the file under the default host where the host is barred.
pub open spec fn holds(s: Session, req: Request) -> bool {
    s.phase != Phase::Finished ==> {
        &&& s.request_path@ == req.path@
        &&& s.host@ == without_port(req.host@)
        &&& range_text(s.range) == range_text(req.range)
        &&& s.brotli == advertises_brotli(req.accept_encoding@)
        &&& s.phase != Phase::Rooting ==> entered(s, "html"@)
    }
}

/// The virtual root of a session after an event: the host where its folder
/// is a directory, else the default host.
pub open spec fn next_root(s: Session, e: Event) -> Seq<char> {
    match (s.phase, e) {
        (Phase::Rooting, Event::HostFound(found)) => if found {
            s.host@
        } else {
            "html"@
        },
        _ => s.virtual_root@,
    }
}

/// The path of a session's file within its virtual root, after an event.
pub open spec fn next_relative(s: Session, e: Event) -> Seq<char> {
    match (s.phase, e) {
        (Phase::Rooting, Event::HostFound(_)) => shaped(s.request_path@),
        _ => s.relative_path@,
    }
}

/// Whether the sibling of a session's file may be written.
pub open spec fn may_compress(conf: &Config, s: Session) -> bool {
    conf.compress_files && is_compressible_type(s.mime@)
}

/// The file of a session after an event: the file under the virtual root
/// once that is known; the compressed sibling in its place where it exists
/// or was written.
pub open spec fn next_path(conf: &Config, s: Session, e: Event) -> Seq<char> {
    match (s.phase, e) {
        (Phase::Rooting, Event::HostFound(_)) => file_of(next_root(s, e), s.request_path@),
        (Phase::Probing, Event::SiblingFound(found)) => if found {
            s.full_path@ + ".br"@
        } else {
            s.full_path@
        },
        (Phase::Compressing, Event::Compressed(written)) => if written {
            s.full_path@ + ".br"@
        } else {
            s.full_path@
        },
        _ => s.full_path@,
    }
}

/// The media type of a session after an event: the name of the file gives
/// it once the virtual root is known, and the first bytes of the file where
/// the name says nothing and the bytes can be read.
pub open spec fn next_mime(conf: &Config, s: Session, e: Event) -> Seq<char> {
    match (s.phase, e) {
        (Phase::Rooting, Event::HostFound(_)) => enter_mime(next_path(conf, s, e)),
        (Phase::Sniffing, Event::Head(Some(content))) => type_of_content(s.full_path@, content@),
        _ => s.mime@,
    }
}

/// The phase of a session after an event.
pub open spec fn next_phase(conf: &Config, s: Session, e: Event) -> Phase {
    match (s.phase, e) {
        (Phase::Rooting, Event::HostFound(_)) => enter_phase(s.brotli, next_path(conf, s, e)),
        (Phase::Sniffing, Event::Head(_)) => fetch_phase(s.brotli),
        (Phase::Probing, Event::SiblingFound(found)) => if !found && may_compress(conf, s) {
            Phase::Compressing
        } else {
            Phase::Opening
        },
        (Phase::Compressing, Event::Compressed(_)) => Phase::Opening,
        _ => Phase::Finished,
    }
}

/// The action that follows an event.
pub open spec fn next_action(conf: &Config, s: Session, e: Event) -> ActionView {
    match (s.phase, e) {
        (Phase::Rooting, Event::HostFound(_)) => enter_action(s.brotli, next_path(conf, s, e)),
        (Phase::Sniffing, Event::Head(_)) => fetch_action(s.brotli, s.full_path@),
        (Phase::Probing, Event::SiblingFound(found)) => match chosen(
            true,
            may_compress(conf, s),
            found,
        ) {
            Representation::Sibling => ActionView::Open { path: s.full_path@ + ".br"@ },
            Representation::NewSibling => ActionView::Compress {
                from: s.full_path@,
                to: s.full_path@ + ".br"@,
            },
            Representation::Plain => ActionView::Open { path: s.full_path@ },
        },
        (Phase::Compressing, Event::Compressed(written)) => ActionView::Open {
            path: next_path(conf, s, e),
        },
        (Phase::Opening, Event::Missing) => if ends_with_seq(
            s.relative_path@,
            "/index.html"@,
        ) {
            ActionView::Listing {
                directory: s.virtual_root@ + s.request_path@,
                virtual_root: s.virtual_root@,
            }
        } else {
            ActionView::NotFound
        },
        (Phase::Opening, Event::Opened { len, is_dir }) => if is_dir {
            ActionView::Redirect(s.request_path@ + "/"@)
        } else {
            let p = planned(range_text(s.range), len);
            ActionView::Stream {
                path: s.full_path@,
                status: if is_partial(p, len) {
                    206u16
                } else {
                    200u16
                },
                headers: file_lines(
                    conf.caching_timeout,
                    conf.hsts,
                    conf.protect,
                    s.mime@,
                    ends_with_seq(s.full_path@, ".br"@),
                    p,
                    len,
                ),
                coding: coding_of(
                    ends_with_seq(s.full_path@, ".br"@),
                    is_compressible_type(s.mime@),
                ),
                reader: ChunkedReader {
                    offset: p.offset,
                    size: p.length,
                    counter: 0,
                    chunk_size: conf.max_streaming_len,
                    exhausted: false,
                },
            }
        },
        _ => ActionView::Fault,
    }
}

fn fetch(brotli: bool, full_path: &str) -> (r: (Phase, Action))
    ensures
        r.0 == fetch_phase(brotli),
        r.1@ == fetch_action(brotli, full_path@),
{
    if brotli {
        (Phase::Probing, Action::ProbeSibling { path: sibling_path(full_path) })
    } else {
        (Phase::Opening, Action::Open { path: String::from_str(full_path) })
    }
}

impl Session {
    fn finished() -> (s: Session)
        ensures
            s.phase == Phase::Finished,
    {
        Session {
            phase: Phase::Finished,
            request_path: String::new(),
            host: String::new(),
            range: None,
            brotli: false,
            virtual_root: String::new(),
            relative_path: String::new(),
            full_path: String::new(),
            mime: String::new(),
        }
    }

    /// Turns to the file at the request path under the virtual root `root`.
    fn enter(&mut self, root: &str) -> (r: Action)
        ensures
            entered(*final(self), root@),
            final(self).phase == enter_phase(old(self).brotli, final(self).full_path@),
            r@ == enter_action(old(self).brotli, final(self).full_path@),
            final(self).request_path@ == old(self).request_path@,
            final(self).host@ == old(self).host@,
            range_text(final(self).range) == range_text(old(self).range),
            final(self).brotli == old(self).brotli,
    {
        match serve(root, self.request_path.as_str()) {
            Resolution::Serve { virtual_root, relative_path, full_path } => {
                let (phase, mime, action) = match mime_from_name(full_path.as_str()) {
                    Some(mime) => {
                        let (phase, action) = fetch(self.brotli, full_path.as_str());
                        (phase, mime, action)
                    },
                    None => (
                        Phase::Sniffing,
                        String::from_str("application/octet-stream"),
                        Action::ReadHead { path: full_path.clone(), max_bytes: 512 },
                    ),
                };
                self.phase = phase;
                self.virtual_root = virtual_root;
                self.relative_path = relative_path;
                self.full_path = full_path;
                self.mime = mime;
                action
            },
            _ => vstd::pervasive::unreached(),
        }
    }

    /// Takes up a request and gives the first action: the answer where the
    /// rules decide the request, else the first step towards its file.
    pub fn start(conf: &Config, req: &Request) -> (r: (Session, Action))
        requires
            conf.wf(),
        ensures
            r.1@ == first_action(conf, *req),
            r.0.phase == first_phase(conf, *req),
            holds(r.0, *req),
    {
        if conf.hsts && !req.secure {
            let target = hsts_target(
                req.host.as_str(),
                conf.tls_addr.as_str(),
                req.path.as_str(),
            );
            return (Session::finished(), Action::Redirect(target));
        }
        match conf.table.route(req.path.as_str(), req.host.as_str(), req.authorization.as_str()) {
            Some(Resolution::Unauthorized) => (Session::finished(), Action::Unauthorized),
            Some(Resolution::Redirect(target)) => (Session::finished(), Action::Redirect(target)),
            Some(Resolution::Proxy(url)) => (
                Session::finished(),
                Action::Forward {
                    url,
                    headers: forward_headers(&req.headers, req.client_ip.as_str()),
                    pool_lifetime: pool_lifetime(conf.stream_timeout as u64),
                },
            ),
            Some(Resolution::Serve { .. }) => vstd::pervasive::unreached(),
            None => {
                if !serves(req.method.as_str()) {
                    return (Session::finished(), Action::MethodNotAllowed);
                }
                let mut session = Session {
                    phase: Phase::Rooting,
                    request_path: req.path.clone(),
                    host: String::from_str(trim_port(req.host.as_str())),
                    range: req.range.clone(),
                    brotli: wants_brotli(req.accept_encoding.as_str()),
                    virtual_root: String::new(),
                    relative_path: String::new(),
                    full_path: String::new(),
                    mime: String::new(),
                };
                if conf.table.is_barred(req.host.as_str()) {
                    let action = session.enter("html");
                    (session, action)
                } else {
                    let folder = conf.host_folder(req.host.as_str());
                    (session, Action::ProbeHost { folder })
                }
            },
        }
    }

    /// Takes the event that tells how the last action went, and gives the
    /// next action. An event that does not belong to the phase ends the
    /// session with a fault.
    pub fn advance(&mut self, conf: &Config, event: Event) -> (r: Action)
        ensures
            r@ == next_action(conf, *old(self), event),
            final(self).phase == next_phase(conf, *old(self), event),
            final(self).virtual_root@ == next_root(*old(self), event),
            final(self).relative_path@ == next_relative(*old(self), event),
            final(self).full_path@ == next_path(conf, *old(self), event),
            final(self).mime@ == next_mime(conf, *old(self), event),
            final(self).request_path@ == old(self).request_path@,
            final(self).host@ == old(self).host@,
            range_text(final(self).range) == range_text(old(self).range),
            final(self).brotli == old(self).brotli,
    {
        match (self.phase, event) {
            (Phase::Rooting, Event::HostFound(found)) => {
                if found {
                    let root = self.host.clone();
                    self.enter(root.as_str())
                } else {
                    self.enter("html")
                }
            },
            (Phase::Sniffing, Event::Head(head)) => {
                if let Some(content) = head {
                    self.mime = mime_from_content(self.full_path.as_str(), &content);
                }
                let (phase, action) = fetch(self.brotli, self.full_path.as_str());
                self.phase = phase;
                action
            },
            (Phase::Probing, Event::SiblingFound(found)) => {
                let may = conf.compress_files && is_compressible(self.mime.as_str());
                match select_representation(true, may, found) {
                    Representation::Sibling => {
                        self.full_path = sibling_path(self.full_path.as_str());
                        self.phase = Phase::Opening;
                        Action::Open { path: self.full_path.clone() }
                    },
                    Representation::NewSibling => {
                        self.phase = Phase::Compressing;
                        Action::Compress {
                            from: self.full_path.clone(),
                            to: sibling_path(self.full_path.as_str()),
                        }
                    },
                    Representation::Plain => {
                        self.phase = Phase::Opening;
                        Action::Open { path: self.full_path.clone() }
                    },
                }
            },
            (Phase::Compressing, Event::Compressed(written)) => {
                if written {
                    self.full_path = sibling_path(self.full_path.as_str());
                }
                self.phase = Phase::Opening;
                Action::Open { path: self.full_path.clone() }
            },
            (Phase::Opening, Event::Missing) => {
                self.phase = Phase::Finished;
                match missing_file(self.relative_path.as_str()) {
                    Missing::Listing => Action::Listing {
                        directory: self.virtual_root.clone().concat(self.request_path.as_str()),
                        virtual_root: self.virtual_root.clone(),
                    },
                    Missing::NotFound => Action::NotFound,
                }
            },
            (Phase::Opening, Event::Opened { len, is_dir }) => {
                self.phase = Phase::Finished;
                if is_dir {
                    Action::Redirect(directory_target(self.request_path.as_str()))
                } else {
                    let range: Option<&str> = match &self.range {
                        Some(r) => Some(r.as_str()),
                        None => None,
                    };
                    let p = plan(range, len);
                    let head = file_response(
                        conf,
                        self.mime.as_str(),
                        is_pre_encoded(self.full_path.as_str()),
                        is_compressible(self.mime.as_str()),
                        p,
                        len,
                    );
                    Action::Stream {
                        path: self.full_path.clone(),
                        head,
                        reader: ChunkedReader::new(p, conf.max_streaming_len),
                    }
                }
            },
            _ => {
                self.phase = Phase::Finished;
                Action::Fault
            },
        }
    }
}

} // verus!
