//! Rule patterns: the sentinel that marks a pattern as a regular expression,
//! and the calls into the `regex` and `base64` crates that the rule tables
//! rest on.
//!
//! What the regular-expression engine computes is not proved here. Its
//! results are given names ([`set_compiles`], [`first_match_in`],
//! [`without_matches`]) and the routing contracts are stated over them.

use regex::RegexSet;
use vstd::prelude::*;
use crate::text::{chars_of, starts_with_chars, starts_with_seq};

verus! {

/// `regex::RegexSet`, a list of patterns compiled into one matcher. Nothing
/// is seen of its inside: what it holds goes by [`set_patterns`].
#[verifier::external_type_specification]
#[verifier::external_body]
pub struct ExRegexSet(regex::RegexSet);

/// `regex::Error`, the reason for which a pattern was rejected. It is only
/// carried through and turned into its message.
#[verifier::external_type_specification]
#[verifier::external_body]
pub struct ExRegexError(regex::Error);

/// The patterns that a compiled set was built from, in the order given.
pub uninterp spec fn set_patterns(set: RegexSet) -> Seq<Seq<char>>;

/// Whether the engine accepts a list of patterns as one set.
pub uninterp spec fn set_compiles(patterns: Seq<Seq<char>>) -> bool;

/// The smallest index of a pattern of the list that matches somewhere in
/// `text`, if any does.
pub uninterp spec fn first_match_in(patterns: Seq<Seq<char>>, text: Seq<char>) -> Option<int>;

/// `text` with every non-overlapping match of `pattern` removed; `None` where
/// the engine rejects the pattern.
pub uninterp spec fn without_matches(pattern: Seq<char>, text: Seq<char>) -> Option<Seq<char>>;

/// The standard base64 text of the UTF-8 bytes of `text`.
pub uninterp spec fn base64_of(text: Seq<char>) -> Seq<char>;

/// The texts of a list of strings.
pub open spec fn texts(items: Seq<String>) -> Seq<Seq<char>> {
    Seq::new(items.len(), |i: int| items[i]@)
}

/// The two characters that mark a pattern as a regular expression.
pub open spec fn sentinel() -> Seq<char> {
    seq!['r', '#']
}

/// A pattern that begins with the sentinel is a regular expression.
pub open spec fn is_regex(location: Seq<char>) -> bool {
    starts_with_seq(location, sentinel())
}

/// The regular expressions among `locations`, sentinel removed, in the order
/// in which they were declared.
pub open spec fn regex_patterns(locations: Seq<Seq<char>>) -> Seq<Seq<char>>
    decreases locations.len(),
{
    if locations.len() == 0 {
        Seq::empty()
    } else if is_regex(locations.last()) {
        regex_patterns(locations.drop_last()).push(locations.last().skip(2))
    } else {
        regex_patterns(locations.drop_last())
    }
}

/// The literal patterns among `locations`, those without the sentinel, in
/// the order in which they were declared.
pub open spec fn literal_patterns(locations: Seq<Seq<char>>) -> Seq<Seq<char>>
    decreases locations.len(),
{
    if locations.len() == 0 {
        Seq::empty()
    } else if is_regex(locations.last()) {
        literal_patterns(locations.drop_last())
    } else {
        literal_patterns(locations.drop_last()).push(locations.last())
    }
}

/// The literal patterns of a list are its patterns without the sentinel,
/// and no others.
pub proof fn lemma_literal_patterns_contains(locations: Seq<Seq<char>>, x: Seq<char>)
    ensures
        literal_patterns(locations).contains(x) <==> locations.contains(x) && !is_regex(x),
    decreases locations.len(),
{
    if locations.len() > 0 {
        let last = locations.last();
        let rest = locations.drop_last();
        lemma_literal_patterns_contains(rest, x);
        let kept = literal_patterns(rest);
        if locations.contains(x) {
            let k = choose|k: int| 0 <= k < locations.len() && locations[k] == x;
            if k < rest.len() {
                assert(rest[k] == x);
            }
        }
        if rest.contains(x) {
            let k = choose|k: int| 0 <= k < rest.len() && rest[k] == x;
            assert(locations[k] == x);
        }
        assert(locations[locations.len() - 1] == last);
        if !is_regex(last) {
            let all = kept.push(last);
            if kept.contains(x) {
                let k = choose|k: int| 0 <= k < kept.len() && kept[k] == x;
                assert(all[k] == x);
            }
            if all.contains(x) {
                let k = choose|k: int| 0 <= k < all.len() && all[k] == x;
                if k < kept.len() {
                    assert(kept[k] == x);
                }
            }
            assert(all[kept.len() as int] == last);
        }
    }
}

/// Every regular expression of the list stands in it under its declared
/// text: the sentinel followed by the expression.
pub proof fn lemma_regex_patterns_origin(locations: Seq<Seq<char>>, i: int)
    requires
        0 <= i < regex_patterns(locations).len(),
    ensures
        locations.contains(sentinel() + regex_patterns(locations)[i]),
    decreases locations.len(),
{
    let last = locations.last();
    let rest = locations.drop_last();
    if is_regex(last) && i == regex_patterns(rest).len() {
        assert(last.subrange(0, 2) == sentinel());
        assert(sentinel() + last.skip(2) =~= last);
        assert(locations[locations.len() - 1] == last);
    } else {
        lemma_regex_patterns_origin(rest, i);
        let k = choose|k: int| 0 <= k < rest.len() && rest[k] == sentinel() + regex_patterns(rest)[i];
        assert(locations[k] == rest[k]);
    }
}

/// `RegexSet::new`: compiles the patterns into one set. It succeeds exactly
/// where the engine accepts the list, and the set then holds the patterns as
/// they were given.
#[verifier::external_body]
pub(crate) fn compile_set(patterns: &Vec<String>) -> (r: Result<RegexSet, regex::Error>)
    ensures
        r is Ok <==> set_compiles(texts(patterns@)),
        r is Ok ==> set_patterns(r->Ok_0) == texts(patterns@),
{
    RegexSet::new(patterns)
}

/// `RegexSet::matches`, read up to its first index: the first pattern of the
/// set that matches somewhere in `text`. An index that comes back is one of
/// the set.
///
/// This holds of sets made by `RegexSet::new`, where the patterns alone
/// decide what matches; a set made by a builder with flags would match
/// otherwise. Only [`compile_set`] makes sets in this crate, and the sets
/// are kept in private fields.
#[verifier::external_body]
pub(crate) fn first_match(set: &RegexSet, text: &str) -> (r: Option<usize>)
    ensures
        match r {
            Some(i) => first_match_in(set_patterns(*set), text@) == Some(i as int) && i
                < set_patterns(*set).len(),
            None => first_match_in(set_patterns(*set), text@) is None,
        },
{
    set.matches(text).iter().next()
}

/// `RegexSet::patterns`: the text of the pattern at index `i` of the set,
/// as it was given to `RegexSet::new`. Only [`compile_set`] makes sets in
/// this crate.
#[verifier::external_body]
pub(crate) fn pattern_at(set: &RegexSet, i: usize) -> (r: &str)
    requires
        i < set_patterns(*set).len(),
    ensures
        r@ == set_patterns(*set)[i as int],
{
    set.patterns()[i].as_str()
}

/// `Regex::new` followed by `Regex::replace_all` with an empty literal
/// replacement: `text` with every match of `pattern` removed, or `None` where
/// the pattern does not compile.
#[verifier::external_body]
pub(crate) fn remove_matches(pattern: &str, text: &str) -> (r: Option<String>)
    ensures
        match r {
            Some(s) => without_matches(pattern@, text@) == Some(s@),
            None => without_matches(pattern@, text@) is None,
        },
{
    match regex::Regex::new(pattern) {
        Ok(re) => Some(re.replace_all(text, regex::NoExpand("")).into_owned()),
        Err(_) => None,
    }
}

/// `base64::encode` on the bytes of `text`.
#[verifier::external_body]
pub(crate) fn encode_text(text: &str) -> (r: String)
    ensures
        r@ == base64_of(text@),
{
    base64::encode(text.as_bytes())
}

/// The message of a `regex::Error`, as its `Display` impl writes it.
#[verifier::external_body]
pub(crate) fn error_message(e: &regex::Error) -> (r: String) {
    format!("{}", e)
}

/// `text` with every match of `regex` removed. A pattern that the engine
/// rejects removes nothing.
pub fn trim_regex(regex: &str, root: &str) -> (r: String)
    ensures
        r@ == trimmed_by(regex@, root@),
{
    match remove_matches(regex, root) {
        Some(s) => s,
        None => root.to_owned(),
    }
}

/// What `trim_regex` leaves of `text`.
pub open spec fn trimmed_by(pattern: Seq<char>, text: Seq<char>) -> Seq<char> {
    match without_matches(pattern, text) {
        Some(s) => s,
        None => text,
    }
}

/// Keeps the regular expressions of a list of patterns, each without its
/// sentinel, in the order given.
pub fn array_get_regex(array: Vec<String>) -> (out: Vec<String>)
    ensures
        texts(out@) == regex_patterns(texts(array@)),
{
    let mark: Vec<char> = vec!['r', '#'];
    let mut out: Vec<String> = Vec::new();
    let mut i: usize = 0;
    proof {
        assert(mark@ =~= sentinel());
        assert(texts(array@).take(0) =~= Seq::<Seq<char>>::empty());
        assert(texts(out@) =~= Seq::<Seq<char>>::empty());
    }
    while i < array.len()
        invariant
            i <= array@.len(),
            mark@ == sentinel(),
            texts(out@) == regex_patterns(texts(array@).take(i as int)),
        decreases array@.len() - i,
    {
        let item: &str = array[i].as_str();
        let chars = chars_of(item);
        proof {
            let upto = texts(array@).take(i + 1);
            assert(upto.drop_last() =~= texts(array@).take(i as int));
            assert(upto.last() == item@);
        }
        if starts_with_chars(chars.as_slice(), mark.as_slice()) {
            let rest = item.substring_char(2, chars.len()).to_owned();
            proof {
                assert(rest@ =~= item@.skip(2));
                assert(texts(out@.push(rest)) =~= texts(out@).push(rest@));
            }
            out.push(rest);
        }
        i += 1;
    }
    proof {
        assert(texts(array@).take(array@.len() as int) =~= texts(array@));
    }
    out
}

/// Keeps the literal patterns of a list, those without the sentinel, in the
/// order given.
pub fn array_get_literal(array: &Vec<String>) -> (out: Vec<String>)
    ensures
        texts(out@) == literal_patterns(texts(array@)),
{
    let mark: Vec<char> = vec!['r', '#'];
    let mut out: Vec<String> = Vec::new();
    let mut i: usize = 0;
    proof {
        assert(mark@ =~= sentinel());
        assert(texts(array@).take(0) =~= Seq::<Seq<char>>::empty());
        assert(texts(out@) =~= Seq::<Seq<char>>::empty());
    }
    while i < array.len()
        invariant
            i <= array@.len(),
            mark@ == sentinel(),
            texts(out@) == literal_patterns(texts(array@).take(i as int)),
        decreases array@.len() - i,
    {
        let item: &str = array[i].as_str();
        let chars = chars_of(item);
        proof {
            let upto = texts(array@).take(i + 1);
            assert(upto.drop_last() =~= texts(array@).take(i as int));
            assert(upto.last() == item@);
        }
        if !starts_with_chars(chars.as_slice(), mark.as_slice()) {
            let kept = item.to_owned();
            proof {
                assert(texts(out@.push(kept)) =~= texts(out@).push(kept@));
            }
            out.push(kept);
        }
        i += 1;
    }
    proof {
        assert(texts(array@).take(array@.len() as int) =~= texts(array@));
    }
    out
}

} // verus!
