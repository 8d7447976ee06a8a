//! Rule tables: for one class of rules, the declared patterns with their
//! destinations, a sorted list of the literal patterns for exact lookup,
//! and the regular expressions compiled into one set.

use regex::RegexSet;
use vstd::prelude::*;
use crate::pattern::{
    array_get_literal, array_get_regex, compile_set, first_match, first_match_in, is_regex,
    lemma_literal_patterns_contains, lemma_regex_patterns_origin, literal_patterns, pattern_at,
    regex_patterns, sentinel, set_compiles, set_patterns, texts, trim_regex, trimmed_by,
};
use crate::sorted::{is_sorted, rows, sorted_contains, sorted_texts};

verus! {

/// A redirect or proxy rule: requests that match `location` go to `dest`.
#[derive(Clone, Debug, PartialEq, Eq)]
pub struct Rule {
    pub location: String,
    pub dest: String,
}

/// An authentication rule: requests that match `location` must present
/// `login`, written as `user:password`.
#[derive(Clone, Debug, PartialEq, Eq)]
pub struct AuthRule {
    pub location: String,
    pub login: String,
}

/// A declared pattern and what it leads to.
pub type Pair = (Seq<char>, Seq<char>);

/// The rules of a list as pairs of pattern and destination.
pub open spec fn pairs_of(rules: Seq<Rule>) -> Seq<Pair> {
    Seq::new(rules.len(), |i: int| (rules[i].location@, rules[i].dest@))
}

/// The patterns of a list of pairs, in order.
pub open spec fn keys(pairs: Seq<Pair>) -> Seq<Seq<char>> {
    Seq::new(pairs.len(), |i: int| pairs[i].0)
}

/// The destination declared for `key`; the last declaration wins.
pub open spec fn lookup(pairs: Seq<Pair>, key: Seq<char>) -> Option<Seq<char>>
    decreases pairs.len(),
{
    if pairs.len() == 0 {
        None
    } else if pairs.last().0 == key {
        Some(pairs.last().1)
    } else {
        lookup(pairs.drop_last(), key)
    }
}

/// A key has a destination exactly when it is one of the declared patterns.
pub proof fn lemma_lookup_some(pairs: Seq<Pair>, key: Seq<char>)
    ensures
        lookup(pairs, key) is Some <==> keys(pairs).contains(key),
    decreases pairs.len(),
{
    if pairs.len() > 0 {
        let rest = pairs.drop_last();
        lemma_lookup_some(rest, key);
        if pairs.last().0 == key {
            assert(keys(pairs)[pairs.len() - 1] == key);
        } else {
            if keys(rest).contains(key) {
                let i = choose|i: int| 0 <= i < rest.len() && keys(rest)[i] == key;
                assert(keys(pairs)[i] == key);
            }
            if keys(pairs).contains(key) {
                let i = choose|i: int| 0 <= i < pairs.len() && keys(pairs)[i] == key;
                assert(keys(rest)[i] == key);
            }
        }
    }
}

/// The first regular expression of `patterns` that matches in `text`, with
/// what is left of `text` once its matches are removed.
pub open spec fn first_trimmed(patterns: Seq<Seq<char>>, text: Seq<char>) -> Option<
    (int, Seq<char>),
> {
    match first_match_in(patterns, text) {
        Some(i) => Some((i, trimmed_by(patterns[i], text))),
        None => None,
    }
}

/// The rules of one class, ready for lookup.
pub struct RuleTable {
    literals: Vec<Vec<char>>,
    set: RegexSet,
    entries: Vec<Rule>,
}

impl View for RuleTable {
    type V = Seq<Pair>;

    /// The declared rules, in order.
    closed spec fn view(&self) -> Seq<Pair> {
        pairs_of(self.entries@)
    }
}

impl RuleTable {
    /// The sorted list of the literal patterns, which is searched for an
    /// exact match.
    pub closed spec fn literal_list(&self) -> Seq<Seq<char>> {
        rows(self.literals@)
    }

    /// The sorted list holds exactly the declared literal patterns, each as
    /// often as it was declared, and the compiled set holds exactly the
    /// regular expressions, in the order declared.
    pub closed spec fn wf(&self) -> bool {
        &&& is_sorted(self.literal_list())
        &&& self.literal_list().to_multiset() == literal_patterns(keys(self@)).to_multiset()
        &&& forall|x: Seq<char>|
            #[trigger] self.literal_list().contains(x) <==> keys(self@).contains(x) && !is_regex(
                x,
            )
        &&& set_patterns(self.set) == regex_patterns(keys(self@))
    }

    /// In a table that is well formed, the list of literals is sorted and is
    /// a permutation of the declared patterns without the sentinel.
    pub proof fn lemma_literal_list(&self)
        requires
            self.wf(),
        ensures
            is_sorted(self.literal_list()),
            self.literal_list().to_multiset() == literal_patterns(keys(self@)).to_multiset(),
    {
    }

    /// Builds the table of a list of rules: the patterns without the
    /// sentinel are sorted into the list of literals, and those with it are
    /// compiled, without it, into one set. It fails exactly where the engine
    /// rejects the regular expressions.
    pub fn build(rules: Vec<Rule>) -> (r: Result<RuleTable, regex::Error>)
        ensures
            r is Ok <==> set_compiles(regex_patterns(keys(pairs_of(rules@)))),
            r is Ok ==> {
                &&& r->Ok_0.wf()
                &&& r->Ok_0@ == pairs_of(rules@)
                &&& is_sorted(r->Ok_0.literal_list())
                &&& r->Ok_0.literal_list().to_multiset() == literal_patterns(
                    keys(pairs_of(rules@)),
                ).to_multiset()
            },
    {
        let mut locations: Vec<String> = Vec::new();
        let mut i: usize = 0;
        while i < rules.len()
            invariant
                i <= rules@.len(),
                locations@.len() == i,
                forall|j: int| 0 <= j < i ==> locations@[j]@ == rules@[j].location@,
            decreases rules@.len() - i,
        {
            locations.push(rules[i].location.clone());
            i += 1;
        }
        proof {
            assert(texts(locations@) =~= keys(pairs_of(rules@)));
        }
        let plain = array_get_literal(&locations);
        let literals = sorted_texts(&plain);
        proof {
            let ks = keys(pairs_of(rules@));
            assert forall|x: Seq<char>| #[trigger]
                rows(literals@).contains(x) <==> ks.contains(x) && !is_regex(x) by {
                lemma_literal_patterns_contains(ks, x);
                let kept = texts(plain@);
                if rows(literals@).contains(x) {
                    let j = choose|j: int| 0 <= j < plain@.len() && plain@[j]@ == x;
                    assert(kept[j] == x);
                }
                if kept.contains(x) {
                    let j = choose|j: int| 0 <= j < kept.len() && kept[j] == x;
                    assert(plain@[j]@ == x);
                }
            }
        }
        let patterns = array_get_regex(locations);
        match compile_set(&patterns) {
            Ok(set) => Ok(RuleTable { literals, set, entries: rules }),
            Err(e) => Err(e),
        }
    }

    /// The destination declared for `key`, where it is one of the patterns.
    pub fn lookup(&self, key: &str) -> (r: Option<&String>)
        ensures
            match r {
                Some(dest) => lookup(self@, key@) == Some(dest@),
                None => lookup(self@, key@) is None,
            },
    {
        let wanted: String = key.to_owned();
        let mut i: usize = self.entries.len();
        proof {
            assert(self@.take(i as int) =~= self@);
        }
        while i > 0
            invariant
                i <= self.entries@.len(),
                wanted@ == key@,
                lookup(self@, key@) == lookup(self@.take(i as int), key@),
            decreases i,
        {
            i -= 1;
            proof {
                assert(self@.take(i + 1).drop_last() =~= self@.take(i as int));
                assert(self@.take(i + 1).last() == self@[i as int]);
            }
            if self.entries[i].location == wanted {
                return Some(&self.entries[i].dest);
            }
        }
        None
    }

    /// Whether `key` is, letter for letter, one of the declared literal
    /// patterns. A pattern with the sentinel is no literal: a key that is
    /// the text of a regular expression does not hit.
    pub fn has_literal(&self, key: &[char]) -> (r: bool)
        requires
            self.wf(),
        ensures
            r == (keys(self@).contains(key@) && !is_regex(key@)),
            r == self.literal_list().contains(key@),
    {
        sorted_contains(&self.literals, key)
    }

    /// The first declared regular expression that matches somewhere in `text`,
    /// by its index among the regular expressions of the table.
    pub fn first_regex(&self, text: &str) -> (r: Option<usize>)
        requires
            self.wf(),
        ensures
            match r {
                Some(i) => first_match_in(regex_patterns(keys(self@)), text@) == Some(i as int)
                    && i < regex_patterns(keys(self@)).len(),
                None => first_match_in(regex_patterns(keys(self@)), text@) is None,
            },
    {
        first_match(&self.set, text)
    }

    /// The first declared regular expression that matches somewhere in `text`,
    /// with what is left of `text` once its matches are removed.
    pub fn first_regex_trimmed(&self, text: &str) -> (r: Option<(usize, String)>)
        requires
            self.wf(),
        ensures
            match r {
                Some((i, rest)) => first_trimmed(regex_patterns(keys(self@)), text@) == Some(
                    (i as int, rest@),
                ) && i < regex_patterns(keys(self@)).len(),
                None => first_trimmed(regex_patterns(keys(self@)), text@) is None,
            },
    {
        match self.first_regex(text) {
            Some(i) => Some((i, trim_regex(self.regex_at(i), text))),
            None => None,
        }
    }

    /// The regular expression at index `i`, without its sentinel.
    pub fn regex_at(&self, i: usize) -> (r: &str)
        requires
            self.wf(),
            i < regex_patterns(keys(self@)).len(),
        ensures
            r@ == regex_patterns(keys(self@))[i as int],
    {
        pattern_at(&self.set, i)
    }

    /// The destination declared for the regular expression at index `i`,
    /// looked up under its declared text: the sentinel, then the expression.
    pub fn regex_dest(&self, i: usize) -> (r: &String)
        requires
            self.wf(),
            i < regex_patterns(keys(self@)).len(),
        ensures
            lookup(self@, sentinel() + regex_patterns(keys(self@))[i as int]) == Some(r@),
    {
        let mark: &'static str = "r#";
        let key = String::from_str(mark).concat(self.regex_at(i));
        proof {
            reveal_strlit("r#");
            assert(mark@ =~= sentinel());
            lemma_regex_patterns_origin(keys(self@), i as int);
            lemma_lookup_some(self@, key@);
        }
        match self.lookup(key.as_str()) {
            Some(dest) => dest,
            None => vstd::pervasive::unreached(),
        }
    }
}

} // verus!
