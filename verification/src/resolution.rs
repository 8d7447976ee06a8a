//! The decision taken for one request, and the parts of it that depend on
//! the request path alone.

use vstd::prelude::*;
use crate::text::{chars_of, contains_chars, ends_with_chars, ends_with_seq, has_occurrence};

verus! {

/// What becomes of a request.
#[derive(Clone, Debug, PartialEq, Eq)]
pub enum Resolution {
    /// The credentials are missing or wrong.
    Unauthorized,
    /// The client is sent to another location.
    Redirect(String),
    /// The request is forwarded to an upstream URL.
    Proxy(String),
    /// A file is served from a virtual root.
    Serve { virtual_root: String, relative_path: String, full_path: String },
}

/// A decision, with its texts as sequences of characters.
pub enum Outcome {
    Unauthorized,
    Redirect(Seq<char>),
    Proxy(Seq<char>),
    Serve { virtual_root: Seq<char>, relative_path: Seq<char>, full_path: Seq<char> },
}

impl View for Resolution {
    type V = Outcome;

    open spec fn view(&self) -> Outcome {
        match self {
            Resolution::Unauthorized => Outcome::Unauthorized,
            Resolution::Redirect(target) => Outcome::Redirect(target@),
            Resolution::Proxy(url) => Outcome::Proxy(url@),
            Resolution::Serve { virtual_root, relative_path, full_path } => Outcome::Serve {
                virtual_root: virtual_root@,
                relative_path: relative_path@,
                full_path: full_path@,
            },
        }
    }
}

/// The text of an optional string.
pub open spec fn opt_text(s: Option<String>) -> Option<Seq<char>> {
    match s {
        Some(t) => Some(t@),
        None => None,
    }
}

/// The decision that the path alone forces: a path that ends with
/// `/index.html` is sent to its directory, and one that holds `..` is sent to
/// an inert target.
pub open spec fn sanitized(path: Seq<char>) -> Option<Outcome> {
    if ends_with_seq(path, "/index.html"@) {
        Some(Outcome::Redirect("./"@))
    } else if has_occurrence(path, ".."@) {
        Some(Outcome::Redirect(".."@))
    } else {
        None
    }
}

/// The path as it is served: a directory path gets its index file.
pub open spec fn shaped(path: Seq<char>) -> Seq<char> {
    if path.len() > 0 && path.last() == '/' {
        path + "index.html"@
    } else {
        path
    }
}

/// Serving `path` from the virtual root `root`.
pub open spec fn served(root: Seq<char>, path: Seq<char>) -> Outcome {
    Outcome::Serve {
        virtual_root: root,
        relative_path: shaped(path),
        full_path: root + shaped(path),
    }
}

/// A decision as the triple of path, host and full path: the host is `redir`
/// for a refusal (path `unauth`) and for a redirect (path: the target), and
/// `proxy` for a forward (path: the upstream URL).
pub open spec fn triple_of(o: Outcome) -> (Seq<char>, Seq<char>, Option<Seq<char>>) {
    match o {
        Outcome::Unauthorized => ("unauth"@, "redir"@, None),
        Outcome::Redirect(target) => (target, "redir"@, None),
        Outcome::Proxy(url) => (url, "proxy"@, None),
        Outcome::Serve { virtual_root, relative_path, full_path } => (
            relative_path,
            virtual_root,
            Some(full_path),
        ),
    }
}

/// The decision that the path alone forces, if any.
pub fn sanitize(path: &str) -> (r: Option<Resolution>)
    ensures
        match r {
            Some(res) => sanitized(path@) == Some(res@),
            None => sanitized(path@) is None,
        },
{
    let chars = chars_of(path);
    let index = chars_of("/index.html");
    let dots = chars_of("..");
    if ends_with_chars(chars.as_slice(), index.as_slice()) {
        Some(Resolution::Redirect(String::from_str("./")))
    } else if contains_chars(chars.as_slice(), dots.as_slice()) {
        Some(Resolution::Redirect(String::from_str("..")))
    } else {
        None
    }
}

/// Serves `path` from the virtual root `root`.
pub fn serve(root: &str, path: &str) -> (r: Resolution)
    ensures
        r@ == served(root@, path@),
{
    let chars = chars_of(path);
    let n: usize = chars.len();
    let relative_path = if n > 0 && chars[n - 1] == '/' {
        String::from_str(path).concat("index.html")
    } else {
        String::from_str(path)
    };
    let full_path = String::from_str(root).concat(relative_path.as_str());
    Resolution::Serve { virtual_root: String::from_str(root), relative_path, full_path }
}

impl Resolution {
    /// The decision as a triple of path, host and full path.
    pub fn into_triple(self) -> (r: (String, String, Option<String>))
        ensures
            (r.0@, r.1@, opt_text(r.2)) == triple_of(self@),
    {
        match self {
            Resolution::Unauthorized => (
                String::from_str("unauth"),
                String::from_str("redir"),
                None,
            ),
            Resolution::Redirect(target) => (target, String::from_str("redir"), None),
            Resolution::Proxy(url) => (url, String::from_str("proxy"), None),
            Resolution::Serve { virtual_root, relative_path, full_path } => (
                relative_path,
                virtual_root,
                Some(full_path),
            ),
        }
    }
}

} // verus!
