//! The server's configuration: settings with their defaults, the rule tables
//! and the hidden hosts, and the routing of a request through them.

use regex::RegexSet;
use vstd::prelude::*;
use crate::pattern::{
    array_get_regex, base64_of, compile_set, encode_text, error_message, first_match,
    first_match_in, is_regex, literal_patterns, regex_patterns, sentinel, set_compiles,
    set_patterns, texts,
};
use crate::resolution::{opt_text, sanitize, sanitized, serve, served, triple_of, Outcome, Resolution};
use crate::rules::{
    first_trimmed, keys, lemma_lookup_some, lookup, pairs_of, AuthRule, Pair, Rule, RuleTable,
};
use crate::sorted::{is_sorted, rows, sorted_contains, sorted_texts};
use crate::text::{
    after_first, chars_of, contains_char, ends_with_seq, has_occurrence, trim_port, trim_prefix,
    without_port,
};

verus! {

/// The `[server]` section as it was read; an absent key takes its default.
#[derive(Clone, Debug)]
pub struct ServerSettings {
    pub http_addr: Option<String>,
    pub tls_addr: Option<String>,
    pub stream_timeout: Option<usize>,
    pub log_format: Option<String>,
    pub cert_folder: Option<String>,
    pub root_folder: Option<String>,
    pub copy_chunk_size: Option<u64>,
    pub prefer_chacha_poly: Option<bool>,
}

/// The `[content]` section as it was read; an absent key takes its default.
#[derive(Clone, Debug)]
pub struct ContentSettings {
    pub protect: Option<bool>,
    pub caching_timeout: Option<i64>,
    pub compress_files: Option<bool>,
    pub hsts: Option<bool>,
    pub hide: Option<Vec<String>>,
    pub smaller_default: Option<bool>,
}

/// A configuration as it was read, before defaults and compilation.
#[derive(Clone, Debug)]
pub struct Settings {
    pub server: ServerSettings,
    pub content: ContentSettings,
    pub proxy: Option<Vec<Rule>>,
    pub redir: Option<Vec<Rule>>,
    pub auth: Option<Vec<AuthRule>>,
}

/// The classes of patterns that a configuration holds.
#[derive(Clone, Copy, Debug, PartialEq, Eq)]
pub enum RuleClass {
    Hidden,
    Redirect,
    Proxy,
    Auth,
}

/// A configuration was rejected: the regular expressions of one class do not
/// compile.
#[derive(Clone, Debug)]
pub struct ConfigError {
    pub class: RuleClass,
    pub message: String,
}

/// The compiled rules of a configuration: the hidden hosts and the tables of
/// the redirect, proxy and authentication rules. Built once, then only read.
pub struct PatternTable {
    hidden: Vec<Vec<char>>,
    hiddenx: RegexSet,
    redirects: RuleTable,
    proxies: RuleTable,
    logins: RuleTable,
}

/// The configuration that requests are served under. Routing goes through
/// `handle_path` and `resolve`.
pub struct Config {
    pub caching_timeout: i64,
    pub stream_timeout: usize,
    pub hsts: bool,
    pub table: PatternTable,
    pub protect: bool,
    pub compress_files: bool,
    pub chacha: bool,
    pub log_format: String,
    pub http_addr: String,
    pub tls_addr: String,
    pub cert_folder: String,
    pub root_folder: String,
    pub max_streaming_len: u64,
    pub smaller_default: bool,
}

/// The text of an optional string, or `default`.
pub open spec fn text_or(o: Option<String>, default: Seq<char>) -> Seq<char> {
    match o {
        Some(s) => s@,
        None => default,
    }
}

/// The rules of an optional list.
pub open spec fn rules_or_none(o: Option<Vec<Rule>>) -> Seq<Rule> {
    match o {
        Some(v) => v@,
        None => Seq::empty(),
    }
}

/// The authentication rules of an optional list.
pub open spec fn logins_or_none(o: Option<Vec<AuthRule>>) -> Seq<AuthRule> {
    match o {
        Some(v) => v@,
        None => Seq::empty(),
    }
}

/// The declared hidden entries.
pub open spec fn hide_or_none(o: Option<Vec<String>>) -> Seq<Seq<char>> {
    match o {
        Some(v) => texts(v@),
        None => Seq::empty(),
    }
}

/// Each authentication rule as its pattern with the base64 text of its login.
pub open spec fn credential_pairs(rules: Seq<AuthRule>) -> Seq<Pair> {
    Seq::new(rules.len(), |i: int| (rules[i].location@, base64_of(rules[i].login@)))
}

/// The names that are never served as virtual hosts: the declared hidden
/// entries, the certificate folder, and `redir`.
pub open spec fn hidden_names_of(raw: Settings) -> Seq<Seq<char>> {
    hide_or_none(raw.content.hide).push(text_or(raw.server.cert_folder, "ssl"@)).push("redir"@)
}

/// The regular expressions among the patterns of a list of pairs.
pub open spec fn regexes(pairs: Seq<Pair>) -> Seq<Seq<char>> {
    regex_patterns(keys(pairs))
}

/// The destination of the literal rule whose pattern is `key`, letter for
/// letter. A rule with the sentinel is matched by its expression only, never
/// by its text.
pub open spec fn literal_dest(pairs: Seq<Pair>, key: Seq<char>) -> Option<Seq<char>> {
    if is_regex(key) {
        None
    } else {
        lookup(pairs, key)
    }
}

/// The folder that a host is served from when it is its own virtual root:
/// the host without its port, under the root folder.
pub open spec fn folder_of(root_folder: Seq<char>, host: Seq<char>) -> Seq<char> {
    root_folder + "/"@ + without_port(host)
}

/// The first class, in the order hidden, redirect, proxy, auth, whose regular
/// expressions the engine rejects.
pub open spec fn rejected_class(raw: Settings) -> Option<RuleClass> {
    if !set_compiles(regex_patterns(hide_or_none(raw.content.hide))) {
        Some(RuleClass::Hidden)
    } else if !set_compiles(regexes(pairs_of(rules_or_none(raw.redir)))) {
        Some(RuleClass::Redirect)
    } else if !set_compiles(regexes(pairs_of(rules_or_none(raw.proxy)))) {
        Some(RuleClass::Proxy)
    } else if !set_compiles(regexes(credential_pairs(logins_or_none(raw.auth)))) {
        Some(RuleClass::Auth)
    } else {
        None
    }
}

/// An index that a search returned, as a mathematical integer.
pub open spec fn as_index(m: Option<usize>) -> Option<int> {
    match m {
        Some(i) => Some(i as int),
        None => None,
    }
}

/// A matching index and what trimming left, as mathematical values.
pub open spec fn as_trimmed(m: Option<(usize, String)>) -> Option<(int, Seq<char>)> {
    match m {
        Some((i, rest)) => Some((i as int, rest@)),
        None => None,
    }
}

/// The index that a search returned is one of `patterns`.
pub open spec fn names_one_of(m: Option<(usize, String)>, patterns: Seq<Seq<char>>) -> bool {
    match m {
        Some((i, _)) => i < patterns.len(),
        None => true,
    }
}

fn string_or(o: Option<String>, default: &str) -> (r: String)
    ensures
        r@ == text_or(o, default@),
{
    match o {
        Some(s) => s,
        None => String::from_str(default),
    }
}

fn reject(class: RuleClass, e: regex::Error) -> (r: ConfigError)
    ensures
        r.class == class,
{
    ConfigError { class, message: error_message(&e) }
}

impl PatternTable {
    /// The redirect rules, in the order declared.
    pub closed spec fn redirect_rules(&self) -> Seq<Pair> {
        self.redirects@
    }

    /// The proxy rules, in the order declared.
    pub closed spec fn proxy_rules(&self) -> Seq<Pair> {
        self.proxies@
    }

    /// The authentication rules, each with the base64 text of its login.
    pub closed spec fn credentials(&self) -> Seq<Pair> {
        self.logins@
    }

    /// The sorted list of the hidden names.
    pub closed spec fn hidden_list(&self) -> Seq<Seq<char>> {
        rows(self.hidden@)
    }

    /// The sorted list of the literal redirect patterns.
    pub closed spec fn redirect_literals(&self) -> Seq<Seq<char>> {
        self.redirects.literal_list()
    }

    /// The sorted list of the literal proxy patterns.
    pub closed spec fn proxy_literals(&self) -> Seq<Seq<char>> {
        self.proxies.literal_list()
    }

    /// Whether `host` is, letter for letter, a hidden name.
    pub open spec fn is_hidden_name(&self, host: Seq<char>) -> bool {
        self.hidden_list().contains(host)
    }

    /// The regular expressions that hide hosts.
    pub closed spec fn hidden_patterns(&self) -> Seq<Seq<char>> {
        set_patterns(self.hiddenx)
    }

    /// The tables are consistent with the rules they were built from.
    pub closed spec fn wf(&self) -> bool {
        &&& self.redirects.wf()
        &&& self.proxies.wf()
        &&& self.logins.wf()
        &&& is_sorted(rows(self.hidden@))
    }
}

impl PatternTable {
    /// Whether a request may pass the authentication rules: where a rule
    /// matches, the header without its `Basic ` prefix must be the stored
    /// base64 text of the first matching rule.
    pub open spec fn auth_verdict(&self, matched: Option<int>, auth: Seq<char>) -> bool {
        match matched {
            Some(i) => match lookup(
                self.credentials(),
                sentinel() + regexes(self.credentials())[i],
            ) {
                Some(digest) => after_first("Basic "@, auth) == digest,
                None => true,
            },
            None => true,
        }
    }

    /// Where the redirect rules send `key`, the host followed by the path:
    /// for a matching regular expression, its destination followed by what
    /// trimming left of the key; else the destination of the literal rule
    /// whose pattern is the key itself.
    pub open spec fn redirect_target(
        &self,
        key: Seq<char>,
        matched: Option<(int, Seq<char>)>,
    ) -> Option<Seq<char>> {
        match matched {
            Some((i, rest)) => match lookup(
                self.redirect_rules(),
                sentinel() + regexes(self.redirect_rules())[i],
            ) {
                Some(link) => Some(link + rest),
                None => literal_dest(self.redirect_rules(), key),
            },
            None => literal_dest(self.redirect_rules(), key),
        }
    }

    /// Where the proxy rules forward a request: for a matching regular
    /// expression, its destination followed by what trimming left of host and
    /// path; else the destination of the literal rule whose pattern is the host alone,
    /// followed by the whole path.
    pub open spec fn proxy_target(
        &self,
        host: Seq<char>,
        path: Seq<char>,
        matched: Option<(int, Seq<char>)>,
    ) -> Option<Seq<char>> {
        match matched {
            Some((i, rest)) => match lookup(
                self.proxy_rules(),
                sentinel() + regexes(self.proxy_rules())[i],
            ) {
                Some(link) => Some(link + rest),
                None => self.literal_proxy(host, path),
            },
            None => self.literal_proxy(host, path),
        }
    }

    /// The destination of the literal proxy rule whose pattern is the host, followed
    /// by the path.
    pub open spec fn literal_proxy(&self, host: Seq<char>, path: Seq<char>) -> Option<Seq<char>> {
        match literal_dest(self.proxy_rules(), host) {
            Some(link) => Some(link + path),
            None => None,
        }
    }

    /// Whether `host` cannot be a virtual root whatever is on disk: it is a
    /// hidden name, matches a hidden pattern, is empty, begins with a dot, or
    /// holds a path separator.
    pub open spec fn bars(&self, host: Seq<char>, hidden_match: bool) -> bool {
        self.is_hidden_name(host) || hidden_match || host.len() == 0 || host[0] == '.'
            || host.contains('/') || host.contains('\\')
    }

    /// The virtual root for `host`: the host itself where it is not barred and
    /// is a directory, else the default host.
    pub open spec fn virtual_root_of(
        &self,
        host: Seq<char>,
        hidden_match: bool,
        host_is_dir: bool,
    ) -> Seq<char> {
        if self.bars(host, hidden_match) || !host_is_dir {
            "html"@
        } else {
            host
        }
    }

    /// The decision of the rules, before any file is looked at: `None` where
    /// the request is to be served from a virtual root.
    pub open spec fn routed(
        &self,
        path: Seq<char>,
        raw_host: Seq<char>,
        auth: Seq<char>,
    ) -> Option<Outcome> {
        let host = without_port(raw_host);
        let key = host + path;
        match sanitized(path) {
            Some(o) => Some(o),
            None => if !self.auth_verdict(first_match_in(regexes(self.credentials()), key), auth) {
                Some(Outcome::Unauthorized)
            } else {
                match self.redirect_target(
                    key,
                    first_trimmed(regexes(self.redirect_rules()), key),
                ) {
                    Some(target) => Some(Outcome::Redirect(target)),
                    None => match self.proxy_target(
                        host,
                        path,
                        first_trimmed(regexes(self.proxy_rules()), key),
                    ) {
                        Some(url) => Some(Outcome::Proxy(url)),
                        None => None,
                    },
                }
            },
        }
    }

    /// Whether the hidden names and patterns bar the host of a request.
    pub open spec fn barred(&self, raw_host: Seq<char>) -> bool {
        let host = without_port(raw_host);
        self.bars(host, first_match_in(self.hidden_patterns(), host) is Some)
    }

    /// The decision for a request, given whether its host names a directory.
    pub open spec fn resolved(
        &self,
        path: Seq<char>,
        raw_host: Seq<char>,
        auth: Seq<char>,
        host_is_dir: bool,
    ) -> Outcome {
        match self.routed(path, raw_host, auth) {
            Some(o) => o,
            None => served(
                if self.barred(raw_host) || !host_is_dir {
                    "html"@
                } else {
                    without_port(raw_host)
                },
                path,
            ),
        }
    }

    /// Checks a request against the authentication rule that `matched` names,
    /// the first whose pattern matches host and path.
    pub fn auth_allows(&self, matched: Option<usize>, auth: &str) -> (r: bool)
        requires
            self.wf(),
            matched is Some ==> matched->0 < regexes(self.credentials()).len(),
        ensures
            r == self.auth_verdict(as_index(matched), auth@),
    {
        match matched {
            Some(i) => {
                let digest = self.logins.regex_dest(i);
                let given: String = trim_prefix("Basic ", auth).to_owned();
                given == *digest
            },
            None => true,
        }
    }

    /// The redirect target for `key`, the host followed by the path, where
    /// `matched` names the first redirect pattern that matches it and holds
    /// what trimming left of the key.
    pub fn redirect_for(&self, key: &str, matched: Option<(usize, String)>) -> (r: Option<String>)
        requires
            self.wf(),
            names_one_of(matched, regexes(self.redirect_rules())),
        ensures
            opt_text(r) == self.redirect_target(key@, as_trimmed(matched)),
    {
        match matched {
            Some((i, rest)) => {
                let link = self.redirects.regex_dest(i);
                Some(link.clone().concat(rest.as_str()))
            },
            None => {
                let chars = chars_of(key);
                proof {
                    lemma_lookup_some(self.redirects@, key@);
                }
                if self.redirects.has_literal(chars.as_slice()) {
                    match self.redirects.lookup(key) {
                        Some(link) => Some(link.clone()),
                        None => None,
                    }
                } else {
                    None
                }
            },
        }
    }

    /// The upstream URL for a request, where `matched` names the first proxy
    /// pattern that matches host and path and holds what trimming left of
    /// them.
    pub fn proxy_for(&self, host: &str, path: &str, matched: Option<(usize, String)>) -> (r:
        Option<String>)
        requires
            self.wf(),
            names_one_of(matched, regexes(self.proxy_rules())),
        ensures
            opt_text(r) == self.proxy_target(host@, path@, as_trimmed(matched)),
    {
        match matched {
            Some((i, rest)) => {
                let link = self.proxies.regex_dest(i);
                Some(link.clone().concat(rest.as_str()))
            },
            None => {
                let chars = chars_of(host);
                proof {
                    lemma_lookup_some(self.proxies@, host@);
                }
                if self.proxies.has_literal(chars.as_slice()) {
                    match self.proxies.lookup(host) {
                        Some(link) => Some(link.clone().concat(path)),
                        None => None,
                    }
                } else {
                    None
                }
            },
        }
    }

    /// Whether `host` cannot be a virtual root whatever is on disk, where
    /// `hidden_match` says whether a hidden pattern matches it.
    pub fn bars_host(&self, host: &str, hidden_match: bool) -> (r: bool)
        requires
            self.wf(),
        ensures
            r == self.bars(host@, hidden_match),
    {
        let chars = chars_of(host);
        sorted_contains(&self.hidden, chars.as_slice()) || hidden_match || chars.len() == 0
            || chars[0] == '.' || contains_char(chars.as_slice(), '/') || contains_char(
            chars.as_slice(),
            '\\',
        )
    }

    /// Whether the hidden names and patterns bar the host of a request.
    pub fn is_barred(&self, raw_host: &str) -> (r: bool)
        requires
            self.wf(),
        ensures
            r == self.barred(raw_host@),
    {
        let host = trim_port(raw_host);
        let hidden_match = first_match(&self.hiddenx, host).is_some();
        self.bars_host(host, hidden_match)
    }

    /// Takes a request through the rules, in their fixed order: the path
    /// itself, authentication, redirects, proxies. `None` means that the
    /// request is to be served from a virtual root.
    pub fn route(&self, path: &str, raw_host: &str, auth: &str) -> (r: Option<Resolution>)
        requires
            self.wf(),
        ensures
            match r {
                Some(res) => self.routed(path@, raw_host@, auth@) == Some(res@),
                None => self.routed(path@, raw_host@, auth@) is None,
            },
    {
        let host = trim_port(raw_host);
        let key: String = String::from_str(host).concat(path);
        if let Some(res) = sanitize(path) {
            return Some(res);
        }
        let login = self.logins.first_regex(key.as_str());
        if !self.auth_allows(login, auth) {
            return Some(Resolution::Unauthorized);
        }
        let redirect = self.redirects.first_regex_trimmed(key.as_str());
        if let Some(target) = self.redirect_for(key.as_str(), redirect) {
            return Some(Resolution::Redirect(target));
        }
        let proxy = self.proxies.first_regex_trimmed(key.as_str());
        if let Some(url) = self.proxy_for(host, path, proxy) {
            return Some(Resolution::Proxy(url));
        }
        None
    }

    /// Decides a request, given whether its host, without the port, names a
    /// directory under the server root.
    pub fn resolve(&self, path: &str, raw_host: &str, auth: &str, host_is_dir: bool) -> (r:
        Resolution)
        requires
            self.wf(),
        ensures
            r@ == self.resolved(path@, raw_host@, auth@, host_is_dir),
    {
        match self.route(path, raw_host, auth) {
            Some(res) => res,
            None => {
                if self.is_barred(raw_host) || !host_is_dir {
                    serve("html", path)
                } else {
                    serve(trim_port(raw_host), path)
                }
            },
        }
    }
}

impl Config {
    /// The tables are consistent with the rules they were built from.
    pub open spec fn wf(&self) -> bool {
        self.table.wf()
    }

    /// Builds the configuration from what was read: absent settings take
    /// their defaults, the rule tables are compiled, and logins are stored as
    /// base64 text. It fails exactly where the regular expressions of some
    /// class do not compile, and names the first such class.
    pub fn load_config(raw: Settings) -> (r: Result<Config, ConfigError>)
        ensures
            match r {
                Ok(c) => {
                    &&& rejected_class(raw) is None
                    &&& c.wf()
                    &&& c.table.redirect_rules() == pairs_of(rules_or_none(raw.redir))
                    &&& c.table.proxy_rules() == pairs_of(rules_or_none(raw.proxy))
                    &&& c.table.credentials() == credential_pairs(logins_or_none(raw.auth))
                    &&& c.table.hidden_patterns() == regex_patterns(
                        hide_or_none(raw.content.hide),
                    )
                    &&& is_sorted(c.table.hidden_list())
                    &&& c.table.hidden_list().to_multiset() == hidden_names_of(
                        raw,
                    ).to_multiset()
                    &&& forall|x: Seq<char>|
                        c.table.is_hidden_name(x) <==> hidden_names_of(raw).contains(x)
                    &&& is_sorted(c.table.redirect_literals())
                    &&& c.table.redirect_literals().to_multiset() == literal_patterns(
                        keys(pairs_of(rules_or_none(raw.redir))),
                    ).to_multiset()
                    &&& is_sorted(c.table.proxy_literals())
                    &&& c.table.proxy_literals().to_multiset() == literal_patterns(
                        keys(pairs_of(rules_or_none(raw.proxy))),
                    ).to_multiset()
                    &&& c.caching_timeout == raw.content.caching_timeout.unwrap_or(12)
                    &&& c.stream_timeout == raw.server.stream_timeout.unwrap_or(20)
                    &&& c.hsts == raw.content.hsts.unwrap_or(false)
                    &&& c.protect == raw.content.protect.unwrap_or(true)
                    &&& c.compress_files == raw.content.compress_files.unwrap_or(true)
                    &&& c.chacha == raw.server.prefer_chacha_poly.unwrap_or(false)
                    &&& c.smaller_default == raw.content.smaller_default.unwrap_or(false)
                    &&& c.max_streaming_len == raw.server.copy_chunk_size.unwrap_or(65_536)
                    &&& c.log_format@ == text_or(raw.server.log_format, "minimal"@)
                    &&& c.http_addr@ == text_or(raw.server.http_addr, "[::]:80"@)
                    &&& c.tls_addr@ == text_or(raw.server.tls_addr, "[::]:443"@)
                    &&& c.cert_folder@ == text_or(raw.server.cert_folder, "ssl"@)
                    &&& c.root_folder@ == text_or(raw.server.root_folder, "."@)
                },
                Err(e) => rejected_class(raw) == Some(e.class),
            },
    {
        let Settings { server, content, proxy, redir, auth } = raw;
        let cert_folder: String = string_or(server.cert_folder, "ssl");
        let hide: Vec<String> = match content.hide {
            Some(v) => v,
            None => Vec::new(),
        };
        let ghost hide_texts = texts(hide@);
        let mut names: Vec<String> = Vec::new();
        let mut i: usize = 0;
        while i < hide.len()
            invariant
                i <= hide@.len(),
                names@.len() == i,
                forall|j: int| 0 <= j < i ==> names@[j]@ == hide@[j]@,
            decreases hide@.len() - i,
        {
            names.push(hide[i].clone());
            i += 1;
        }
        names.push(cert_folder.clone());
        names.push(String::from_str("redir"));
        proof {
            assert(texts(names@) =~= hide_texts.push(cert_folder@).push("redir"@));
            assert(hide_or_none(raw.content.hide) =~= hide_texts);
        }
        let hidden = sorted_texts(&names);
        proof {
            let all = texts(names@);
            assert forall|x: Seq<char>| rows(hidden@).contains(x) <==> all.contains(x) by {
                if rows(hidden@).contains(x) {
                    let j = choose|j: int| 0 <= j < names@.len() && names@[j]@ == x;
                    assert(all[j] == x);
                }
                if all.contains(x) {
                    let j = choose|j: int| 0 <= j < all.len() && all[j] == x;
                    assert(names@[j]@ == x);
                }
            }
        }
        let hiddenx = match compile_set(&array_get_regex(hide)) {
            Ok(set) => set,
            Err(e) => {
                return Err(reject(RuleClass::Hidden, e));
            },
        };
        let redirects = match RuleTable::build(
            match redir {
                Some(v) => v,
                None => Vec::new(),
            },
        ) {
            Ok(t) => t,
            Err(e) => {
                return Err(reject(RuleClass::Redirect, e));
            },
        };
        proof {
            assert(redirects@ =~= pairs_of(rules_or_none(raw.redir)));
        }
        let proxies = match RuleTable::build(
            match proxy {
                Some(v) => v,
                None => Vec::new(),
            },
        ) {
            Ok(t) => t,
            Err(e) => {
                return Err(reject(RuleClass::Proxy, e));
            },
        };
        proof {
            assert(proxies@ =~= pairs_of(rules_or_none(raw.proxy)));
        }
        let declared: Vec<AuthRule> = match auth {
            Some(v) => v,
            None => Vec::new(),
        };
        let mut digests: Vec<Rule> = Vec::new();
        let mut k: usize = 0;
        while k < declared.len()
            invariant
                k <= declared@.len(),
                digests@.len() == k,
                forall|j: int|
                    0 <= j < k ==> digests@[j].location@ == declared@[j].location@
                        && digests@[j].dest@ == base64_of(declared@[j].login@),
            decreases declared@.len() - k,
        {
            digests.push(
                Rule {
                    location: declared[k].location.clone(),
                    dest: encode_text(declared[k].login.as_str()),
                },
            );
            k += 1;
        }
        proof {
            assert(pairs_of(digests@) =~= credential_pairs(declared@));
            assert(declared@ =~= logins_or_none(raw.auth));
        }
        let logins = match RuleTable::build(digests) {
            Ok(t) => t,
            Err(e) => {
                return Err(reject(RuleClass::Auth, e));
            },
        };
        Ok(
            Config {
                caching_timeout: match content.caching_timeout {
                    Some(v) => v,
                    None => 12,
                },
                stream_timeout: match server.stream_timeout {
                    Some(v) => v,
                    None => 20,
                },
                hsts: match content.hsts {
                    Some(v) => v,
                    None => false,
                },
                table: PatternTable { hidden, hiddenx, redirects, proxies, logins },
                protect: match content.protect {
                    Some(v) => v,
                    None => true,
                },
                compress_files: match content.compress_files {
                    Some(v) => v,
                    None => true,
                },
                chacha: match server.prefer_chacha_poly {
                    Some(v) => v,
                    None => false,
                },
                log_format: string_or(server.log_format, "minimal"),
                http_addr: string_or(server.http_addr, "[::]:80"),
                tls_addr: string_or(server.tls_addr, "[::]:443"),
                cert_folder,
                root_folder: string_or(server.root_folder, "."),
                max_streaming_len: match server.copy_chunk_size {
                    Some(v) => v,
                    None => 65_536,
                },
                smaller_default: match content.smaller_default {
                    Some(v) => v,
                    None => false,
                },
            },
        )
    }

    /// Decides a request, given whether its host, without the port, names a
    /// directory under the server root.
    pub fn resolve(&self, path: &str, host: &str, auth: &str, host_is_dir: bool) -> (r: Resolution)
        requires
            self.wf(),
        ensures
            r@ == self.table.resolved(path@, host@, auth@, host_is_dir),
    {
        self.table.resolve(path, host, auth, host_is_dir)
    }

    /// The folder of which the file system is asked whether it is a
    /// directory, for a request to `host`.
    pub fn host_folder(&self, host: &str) -> (r: String)
        ensures
            r@ == folder_of(self.root_folder@, host@),
    {
        self.root_folder.clone().concat("/").concat(trim_port(host))
    }

    /// Decides a request. Whether the host names a directory under the root
    /// folder is asked of the file system, and only where the rules and the
    /// hidden hosts leave it open: the decision is the one for the answer
    /// that came back.
    pub fn decide(&self, path: &str, host: &str, auth: &str) -> (r: Resolution)
        requires
            self.wf(),
        ensures
            r@ == self.table.resolved(path@, host@, auth@, true) || r@ == self.table.resolved(
                path@,
                host@,
                auth@,
                false,
            ),
            self.table.routed(path@, host@, auth@) is Some || self.table.barred(host@) ==> r@
                == self.table.resolved(path@, host@, auth@, false),
    {
        match self.table.route(path, host, auth) {
            Some(res) => res,
            None => {
                if self.table.is_barred(host) {
                    serve("html", path)
                } else {
                    let name = trim_port(host);
                    let folder = self.host_folder(host);
                    if is_directory(folder.as_str()) {
                        serve(name, path)
                    } else {
                        serve("html", path)
                    }
                }
            },
        }
    }

    /// Decides a request and gives the decision as path, host and full path.
    /// A refusal is the path `unauth` on the host `redir`; a redirect is its
    /// target on the host `redir`; a forward is the upstream URL on the host
    /// `proxy`; a file is its path, its virtual root and both joined.
    ///
    /// The decision is that of `decide`.
    pub fn handle_path(&self, path: &str, host: &str, auth: &str) -> (r: (
        String,
        String,
        Option<String>,
    ))
        requires
            self.wf(),
        ensures
            (r.0@, r.1@, opt_text(r.2)) == triple_of(
                self.table.resolved(path@, host@, auth@, true),
            ) || (r.0@, r.1@, opt_text(r.2)) == triple_of(
                self.table.resolved(path@, host@, auth@, false),
            ),
            self.table.routed(path@, host@, auth@) is Some || self.table.barred(host@) ==> (
                r.0@,
                r.1@,
                opt_text(r.2),
            ) == triple_of(self.table.resolved(path@, host@, auth@, false)),
    {
        self.decide(path, host, auth).into_triple()
    }
}

/// `Path::is_dir`: whether `path` names a directory. The answer depends on
/// the file system, so nothing is claimed of it.
#[verifier::external_body]
fn is_directory(path: &str) -> (r: bool) {
    std::path::Path::new(path).is_dir()
}

/// A path that ends with `/index.html` is redirected to `./`, whatever the
/// host, the credentials and the rules.
pub proof fn lemma_index_path_redirects(
    table: PatternTable,
    path: Seq<char>,
    host: Seq<char>,
    auth: Seq<char>,
    host_is_dir: bool,
)
    requires
        ends_with_seq(path, "/index.html"@),
    ensures
        table.resolved(path, host, auth, host_is_dir) == Outcome::Redirect("./"@),
{
}

/// A path that holds `..` and does not end with `/index.html` is redirected
/// to `..`, whatever the host, the credentials and the rules.
pub proof fn lemma_dotted_path_redirects(
    table: PatternTable,
    path: Seq<char>,
    host: Seq<char>,
    auth: Seq<char>,
    host_is_dir: bool,
)
    requires
        has_occurrence(path, ".."@),
        !ends_with_seq(path, "/index.html"@),
    ensures
        table.resolved(path, host, auth, host_is_dir) == Outcome::Redirect(".."@),
{
}

/// The text of a regular-expression rule is matched by no literal rule: a
/// request whose host begins with the sentinel, and which no regular
/// expression matches, is left to the files unless its path alone decides.
pub proof fn lemma_sentinel_host_is_left_to_the_files(
    table: PatternTable,
    path: Seq<char>,
    host: Seq<char>,
    auth: Seq<char>,
)
    requires
        is_regex(without_port(host)),
        sanitized(path) is None,
        first_match_in(regexes(table.credentials()), without_port(host) + path) is None,
        first_match_in(regexes(table.redirect_rules()), without_port(host) + path) is None,
        first_match_in(regexes(table.proxy_rules()), without_port(host) + path) is None,
    ensures
        table.routed(path, host, auth) is None,
{
    let name = without_port(host);
    let key = name + path;
    assert(key.subrange(0, 2) =~= name.subrange(0, 2));
    assert(is_regex(key));
}

/// A request that the rules leave to the files is served from the default
/// host where its host, without the port, is empty, begins with a dot, holds
/// a slash or a backslash, or names no directory.
pub proof fn lemma_unusable_host_falls_back(
    table: PatternTable,
    path: Seq<char>,
    host: Seq<char>,
    auth: Seq<char>,
    host_is_dir: bool,
)
    requires
        table.routed(path, host, auth) is None,
        without_port(host).len() == 0 || without_port(host)[0] == '.' || without_port(
            host,
        ).contains('/') || without_port(host).contains('\\') || !host_is_dir,
    ensures
        table.resolved(path, host, auth, host_is_dir) == served("html"@, path),
        table.resolved(path, host, auth, host_is_dir) matches Outcome::Serve { virtual_root, .. }
            && virtual_root == "html"@,
{
}

} // verus!
