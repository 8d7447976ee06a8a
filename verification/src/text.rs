//! Character-level helpers on host names, paths and header values.
//!
//! Every contract here is stated over `Seq<char>`, the view of a string.
//! Searching is described by [`occurs_at`], [`first_occurrence`] and
//! [`last_occurrence`]; the trimming functions are described on top of them.

use vstd::prelude::*;

verus! {

/// `pat` stands in `s` at position `i`.
pub open spec fn occurs_at(s: Seq<char>, pat: Seq<char>, i: int) -> bool {
    0 <= i && i + pat.len() <= s.len() && s.subrange(i, i + pat.len()) == pat
}

/// The smallest position at or after `from` where `pat` stands in `s`.
pub open spec fn first_occurrence_from(s: Seq<char>, pat: Seq<char>, from: int) -> Option<int>
    decreases s.len() + 1 - from,
{
    if from < 0 || from + pat.len() > s.len() {
        None
    } else if occurs_at(s, pat, from) {
        Some(from)
    } else {
        first_occurrence_from(s, pat, from + 1)
    }
}

/// The smallest position where `pat` stands in `s`.
pub open spec fn first_occurrence(s: Seq<char>, pat: Seq<char>) -> Option<int> {
    first_occurrence_from(s, pat, 0)
}

/// The greatest position below `below` where `pat` stands in `s`.
pub open spec fn last_occurrence_below(s: Seq<char>, pat: Seq<char>, below: int) -> Option<int>
    decreases below,
{
    if below <= 0 {
        None
    } else if occurs_at(s, pat, below - 1) {
        Some(below - 1)
    } else {
        last_occurrence_below(s, pat, below - 1)
    }
}

/// The greatest position where `pat` stands in `s`.
pub open spec fn last_occurrence(s: Seq<char>, pat: Seq<char>) -> Option<int> {
    last_occurrence_below(s, pat, s.len() - pat.len() + 1)
}

/// `pat` stands somewhere in `s`.
pub open spec fn has_occurrence(s: Seq<char>, pat: Seq<char>) -> bool {
    exists|i: int| occurs_at(s, pat, i)
}

/// `s` ends with `pat`.
pub open spec fn ends_with_seq(s: Seq<char>, pat: Seq<char>) -> bool {
    occurs_at(s, pat, s.len() - pat.len())
}

/// `s` begins with `pat`.
pub open spec fn starts_with_seq(s: Seq<char>, pat: Seq<char>) -> bool {
    occurs_at(s, pat, 0)
}

/// What `first_occurrence_from` finds is an occurrence, and none comes before it.
pub proof fn lemma_first_occurrence_from(s: Seq<char>, pat: Seq<char>, from: int)
    requires
        0 <= from,
    ensures
        match first_occurrence_from(s, pat, from) {
            Some(i) => from <= i && occurs_at(s, pat, i) && forall|j: int|
                from <= j < i ==> !occurs_at(s, pat, j),
            None => forall|j: int| from <= j ==> !occurs_at(s, pat, j),
        },
    decreases s.len() + 1 - from,
{
    if from + pat.len() > s.len() {
    } else if occurs_at(s, pat, from) {
    } else {
        lemma_first_occurrence_from(s, pat, from + 1);
    }
}

/// What `last_occurrence_below` finds is an occurrence, and none comes between
/// it and the bound.
pub proof fn lemma_last_occurrence_below(s: Seq<char>, pat: Seq<char>, below: int)
    ensures
        match last_occurrence_below(s, pat, below) {
            Some(i) => i < below && occurs_at(s, pat, i) && forall|j: int|
                i < j < below ==> !occurs_at(s, pat, j),
            None => forall|j: int| j < below ==> !occurs_at(s, pat, j),
        },
    decreases below,
{
    if below <= 0 {
    } else if occurs_at(s, pat, below - 1) {
    } else {
        lemma_last_occurrence_below(s, pat, below - 1);
    }
}

/// `last_occurrence` is the one occurrence that no other follows.
pub proof fn lemma_last_occurrence(s: Seq<char>, pat: Seq<char>)
    ensures
        match last_occurrence(s, pat) {
            Some(i) => occurs_at(s, pat, i) && forall|j: int| i < j ==> !occurs_at(s, pat, j),
            None => !has_occurrence(s, pat),
        },
{
    lemma_last_occurrence_below(s, pat, s.len() - pat.len() + 1);
}

/// `first_occurrence` is the one occurrence that no other precedes.
pub proof fn lemma_first_occurrence(s: Seq<char>, pat: Seq<char>)
    ensures
        match first_occurrence(s, pat) {
            Some(i) => occurs_at(s, pat, i) && forall|j: int| j < i ==> !occurs_at(s, pat, j),
            None => !has_occurrence(s, pat),
        },
{
    lemma_first_occurrence_from(s, pat, 0);
}

/// The characters of `s`, in order.
pub fn chars_of(s: &str) -> (out: Vec<char>)
    ensures
        out@ == s@,
{
    let mut out: Vec<char> = Vec::new();
    let mut it = s.chars();
    for c in iter: it
        invariant
            out@ == iter.seq().take(iter.index@),
    {
        out.push(c);
    }
    out
}

/// A copy of the characters of `s` from `from` up to `to`.
pub fn copy_range(s: &[char], from: usize, to: usize) -> (out: Vec<char>)
    requires
        from <= to <= s@.len(),
    ensures
        out@ == s@.subrange(from as int, to as int),
{
    let mut out: Vec<char> = Vec::new();
    let mut i: usize = from;
    while i < to
        invariant
            from <= i <= to <= s@.len(),
            out@ == s@.subrange(from as int, i as int),
        decreases to - i,
    {
        out.push(s[i]);
        proof {
            assert(out@ =~= s@.subrange(from as int, i + 1));
        }
        i += 1;
    }
    proof {
        assert(out@ =~= s@.subrange(from as int, to as int));
    }
    out
}

/// Whether `pat` stands in `s` at position `i`.
pub fn matches_at(s: &[char], pat: &[char], i: usize) -> (r: bool)
    requires
        i + pat@.len() <= s@.len(),
    ensures
        r == occurs_at(s@, pat@, i as int),
{
    let n: usize = s.len();
    let m: usize = pat.len();
    let mut k: usize = 0;
    while k < m
        invariant
            n == s@.len(),
            m == pat@.len(),
            k <= m,
            i + m <= n,
            forall|j: int| 0 <= j < k ==> s@[i + j] == pat@[j],
        decreases m - k,
    {
        if s[i + k] != pat[k] {
            proof {
                assert(s@.subrange(i as int, i + pat@.len())[k as int] == s@[i + k]);
            }
            return false;
        }
        k += 1;
    }
    proof {
        assert(s@.subrange(i as int, i + pat@.len()) =~= pat@);
    }
    true
}

/// The first position where `pat` stands in `s`.
pub fn find_chars(s: &[char], pat: &[char]) -> (r: Option<usize>)
    ensures
        match r {
            Some(i) => first_occurrence(s@, pat@) == Some(i as int) && i + pat@.len() <= s@.len()
                <= usize::MAX,
            None => first_occurrence(s@, pat@) is None,
        },
{
    if pat.len() > s.len() {
        return None;
    }
    let count: usize = s.len() - pat.len();
    let mut i: usize = 0;
    while i <= count
        invariant
            count == s@.len() - pat@.len(),
            s@.len() <= usize::MAX,
            i <= count + 1,
            first_occurrence(s@, pat@) == first_occurrence_from(s@, pat@, i as int),
        decreases count + 1 - i,
    {
        if matches_at(s, pat, i) {
            return Some(i);
        }
        if i == count {
            return None;
        }
        i += 1;
    }
    None
}

/// The last position where `pat` stands in `s`.
pub fn rfind_chars(s: &[char], pat: &[char]) -> (r: Option<usize>)
    ensures
        match r {
            Some(i) => last_occurrence(s@, pat@) == Some(i as int) && i + pat@.len() <= s@.len()
                <= usize::MAX,
            None => last_occurrence(s@, pat@) is None,
        },
{
    if pat.len() > s.len() {
        return None;
    }
    let mut i: usize = s.len() - pat.len();
    loop
        invariant
            i <= s@.len() - pat@.len(),
            s@.len() <= usize::MAX,
            last_occurrence(s@, pat@) == last_occurrence_below(s@, pat@, i + 1),
        decreases i,
    {
        if matches_at(s, pat, i) {
            return Some(i);
        }
        if i == 0 {
            proof {
                assert(last_occurrence_below(s@, pat@, 0) is None);
            }
            return None;
        }
        i -= 1;
    }
}

/// Whether `pat` stands somewhere in `s`.
pub fn contains_chars(s: &[char], pat: &[char]) -> (r: bool)
    ensures
        r == has_occurrence(s@, pat@),
{
    proof {
        lemma_first_occurrence(s@, pat@);
    }
    find_chars(s, pat).is_some()
}

/// Whether the character `c` is one of `s`.
pub fn contains_char(s: &[char], c: char) -> (r: bool)
    ensures
        r == s@.contains(c),
{
    let mut i: usize = 0;
    while i < s.len()
        invariant
            i <= s@.len(),
            forall|j: int| 0 <= j < i ==> s@[j] != c,
        decreases s@.len() - i,
    {
        if s[i] == c {
            return true;
        }
        i += 1;
    }
    false
}

/// Whether `s` ends with `pat`.
pub fn ends_with_chars(s: &[char], pat: &[char]) -> (r: bool)
    ensures
        r == ends_with_seq(s@, pat@),
{
    if pat.len() > s.len() {
        return false;
    }
    matches_at(s, pat, s.len() - pat.len())
}

/// Whether `s` begins with `pat`.
pub fn starts_with_chars(s: &[char], pat: &[char]) -> (r: bool)
    ensures
        r == starts_with_seq(s@, pat@),
{
    if pat.len() > s.len() {
        return false;
    }
    matches_at(s, pat, 0)
}

/// Where the port suffix of a host begins: at the `:` that follows the last
/// `]:` when the host holds both brackets, else at the last `:`.
pub open spec fn port_start(h: Seq<char>) -> Option<int> {
    if h.contains('[') && h.contains(']') {
        match last_occurrence(h, seq![']', ':']) {
            Some(i) => Some(i + 1),
            None => None,
        }
    } else {
        last_occurrence(h, seq![':'])
    }
}

/// The host without its port suffix.
pub open spec fn without_port(h: Seq<char>) -> Seq<char> {
    match port_start(h) {
        Some(i) => h.subrange(0, i),
        None => h,
    }
}

/// The port suffix of a host, colon included; empty where there is none.
pub open spec fn port_suffix(h: Seq<char>) -> Seq<char> {
    match port_start(h) {
        Some(i) => h.subrange(i, h.len() as int),
        None => Seq::empty(),
    }
}

/// What follows the first occurrence of `prefix` in `root`; `root` itself
/// where there is none.
pub open spec fn after_first(prefix: Seq<char>, root: Seq<char>) -> Seq<char> {
    match first_occurrence(root, prefix) {
        Some(i) => root.subrange(i + prefix.len(), root.len() as int),
        None => root,
    }
}

/// What precedes the last occurrence of `suffix` in `root`; `root` itself
/// where there is none.
pub open spec fn before_last(suffix: Seq<char>, root: Seq<char>) -> Seq<char> {
    match last_occurrence(root, suffix) {
        Some(i) => root.subrange(0, i),
        None => root,
    }
}

/// The position at which the port suffix of `h` begins.
pub fn port_position(h: &[char]) -> (r: Option<usize>)
    ensures
        match r {
            Some(i) => port_start(h@) == Some(i as int) && i <= h@.len(),
            None => port_start(h@) is None,
        },
{
    if contains_char(h, '[') && contains_char(h, ']') {
        let pat: Vec<char> = vec![']', ':'];
        proof {
            assert(pat@ =~= seq![']', ':']);
            lemma_last_occurrence(h@, pat@);
        }
        match rfind_chars(h, pat.as_slice()) {
            Some(i) => Some(i + 1),
            None => None,
        }
    } else {
        let pat: Vec<char> = vec![':'];
        proof {
            assert(pat@ =~= seq![':']);
            lemma_last_occurrence(h@, pat@);
        }
        rfind_chars(h, pat.as_slice())
    }
}

/// Strips the port from a host: `127.0.0.1:8080` gives `127.0.0.1`,
/// `[::1]:8081` gives `[::1]`, and a host without a port comes back unchanged.
pub fn trim_port<'a>(path: &'a str) -> (r: &'a str)
    ensures
        r@ == without_port(path@),
{
    let chars = chars_of(path);
    match port_position(chars.as_slice()) {
        Some(i) => path.substring_char(0, i),
        None => path,
    }
}

/// Keeps only the port suffix of a host, colon included: `127.0.0.1:8080`
/// gives `:8080`, and a host without a port gives the empty string.
pub fn trim_host<'a>(path: &'a str) -> (r: &'a str)
    ensures
        r@ == port_suffix(path@),
{
    let chars = chars_of(path);
    match port_position(chars.as_slice()) {
        Some(i) => path.substring_char(i, chars.len()),
        None => {
            let nothing: &'static str = "";
            proof {
                reveal_strlit("");
                assert(nothing@ =~= Seq::<char>::empty());
            }
            nothing
        },
    }
}

/// Removes everything up to and including the first occurrence of `prefix`.
pub fn trim_prefix<'a>(prefix: &'a str, root: &'a str) -> (r: &'a str)
    ensures
        r@ == after_first(prefix@, root@),
{
    let chars = chars_of(root);
    let pat = chars_of(prefix);
    proof {
        lemma_first_occurrence(chars@, pat@);
    }
    match find_chars(chars.as_slice(), pat.as_slice()) {
        Some(i) => root.substring_char(i + pat.len(), chars.len()),
        None => root,
    }
}

/// Removes everything from the last occurrence of `suffix` on.
pub fn trim_suffix<'a>(suffix: &'a str, root: &'a str) -> (r: &'a str)
    ensures
        r@ == before_last(suffix@, root@),
{
    let chars = chars_of(root);
    let pat = chars_of(suffix);
    proof {
        lemma_last_occurrence(chars@, pat@);
    }
    match rfind_chars(chars.as_slice(), pat.as_slice()) {
        Some(i) => root.substring_char(0, i),
        None => root,
    }
}

/// A host name as it stands before a port: with both brackets it ends with
/// `]` and holds no `]:`; otherwise it holds no `:`.
pub open spec fn is_bare_host(b: Seq<char>) -> bool {
    if b.contains('[') && b.contains(']') {
        b.last() == ']' && !has_occurrence(b, seq![']', ':'])
    } else {
        !b.contains(':')
    }
}

/// A host is always its part before the port followed by its port suffix.
pub proof fn lemma_port_split(h: Seq<char>)
    ensures
        without_port(h) + port_suffix(h) == h,
{
    lemma_last_occurrence(h, seq![']', ':']);
    lemma_last_occurrence(h, seq![':']);
    assert(without_port(h) + port_suffix(h) =~= h);
}

/// A host is left unchanged exactly when it has no port suffix.
pub proof fn lemma_trim_port_fixed_point(h: Seq<char>)
    ensures
        without_port(h) == h <==> port_start(h) is None,
{
    lemma_last_occurrence(h, seq![']', ':']);
    lemma_last_occurrence(h, seq![':']);
    if let Some(i) = port_start(h) {
        assert(i < h.len());
        assert(h.subrange(0, i).len() == i);
    }
}

/// Stripping the port of `base:port` gives `base`, and the suffix kept is
/// `:port`, where the port holds none of `:`, `[`, `]` (digits do not) and a
/// base with both brackets ends with `]`.
pub proof fn lemma_host_with_port(base: Seq<char>, port: Seq<char>)
    requires
        !port.contains(':'),
        !port.contains('['),
        !port.contains(']'),
        base.contains('[') && base.contains(']') ==> base.last() == ']',
    ensures
        without_port(base + seq![':'] + port) == base,
        port_suffix(base + seq![':'] + port) == seq![':'] + port,
{
    let h = base + seq![':'] + port;
    let n = base.len() as int;
    assert(h[n] == ':');
    assert forall|j: int| n < j < h.len() implies h[j] == port[j - n - 1] && port.contains(
        h[j],
    ) by {}
    assert forall|j: int| 0 <= j < n implies h[j] == base[j] by {}
    if h.contains('[') && h.contains(']') {
        let pat = seq![']', ':'];
        let a = choose|a: int| 0 <= a < h.len() && h[a] == '[';
        let c = choose|c: int| 0 <= c < h.len() && h[c] == ']';
        assert(a < n && c < n);
        assert(base[a] == '[' && base[c] == ']');
        assert(base.last() == ']');
        assert(h.subrange(n - 1, n + 1) =~= pat);
        assert(occurs_at(h, pat, n - 1));
        assert forall|j: int| n - 1 < j implies !occurs_at(h, pat, j) by {
            if occurs_at(h, pat, j) {
                assert(h.subrange(j, j + 2)[0] == ']');
                assert(h[j] == ']');
            }
        }
        lemma_last_occurrence(h, pat);
        assert(last_occurrence(h, pat) == Some(n - 1));
    } else {
        let pat = seq![':'];
        assert(h.subrange(n, n + 1) =~= pat);
        assert(occurs_at(h, pat, n));
        assert forall|j: int| n < j implies !occurs_at(h, pat, j) by {
            if occurs_at(h, pat, j) {
                assert(h.subrange(j, j + 1)[0] == ':');
                assert(h[j] == ':');
            }
        }
        lemma_last_occurrence(h, pat);
        assert(last_occurrence(h, pat) == Some(n));
    }
    assert(port_start(h) == Some(n));
    assert(h.subrange(0, n) =~= base);
    assert(h.subrange(n, h.len() as int) =~= seq![':'] + port);
}

/// A bare host has no port suffix.
pub proof fn lemma_bare_host_has_no_port(b: Seq<char>)
    requires
        is_bare_host(b),
    ensures
        port_start(b) is None,
        without_port(b) == b,
{
    lemma_last_occurrence(b, seq![']', ':']);
    lemma_last_occurrence(b, seq![':']);
    if !(b.contains('[') && b.contains(']')) {
        assert forall|j: int| !occurs_at(b, seq![':'], j) by {
            if occurs_at(b, seq![':'], j) {
                assert(b.subrange(j, j + 1)[0] == ':');
                assert(b[j] == ':');
            }
        }
    }
}

/// Stripping the port is idempotent on `base:port` where the base is a bare
/// host: the first stripping gives the base, and a second one changes nothing.
pub proof fn lemma_trim_port_idempotent(base: Seq<char>, port: Seq<char>)
    requires
        is_bare_host(base),
        !port.contains(':'),
        !port.contains('['),
        !port.contains(']'),
    ensures
        without_port(base + seq![':'] + port) == base,
        without_port(without_port(base + seq![':'] + port)) == without_port(
            base + seq![':'] + port,
        ),
{
    lemma_bare_host_has_no_port(base);
    lemma_host_with_port(base, port);
}

} // verus!
