//! Sorted lists of literal patterns, searched by bisection.
//!
//! Texts are ordered lexicographically by character, which is the order of
//! their UTF-8 bytes.

use vstd::prelude::*;
use vstd::seq_lib::{to_multiset_build, to_multiset_insert, to_multiset_remove};
use crate::pattern::texts;

verus! {

/// `a` comes strictly before `b`: at the first place where they differ, `a`
/// has ended or holds the smaller character.
pub open spec fn lex_lt(a: Seq<char>, b: Seq<char>) -> bool {
    exists|k: int| differ_at(a, b, k)
}

/// `a` and `b` agree before position `k`, and there `a` has ended or holds
/// the smaller character.
pub open spec fn differ_at(a: Seq<char>, b: Seq<char>, k: int) -> bool {
    &&& 0 <= k <= a.len()
    &&& k < b.len()
    &&& forall|i: int| 0 <= i < k ==> a[i] == b[i]
    &&& k < a.len() ==> a[k] < b[k]
}

/// `a` comes before `b` or is `b`.
pub open spec fn lex_le(a: Seq<char>, b: Seq<char>) -> bool {
    a == b || lex_lt(a, b)
}

/// Each text of the list comes before or is the next.
pub open spec fn is_sorted(list: Seq<Seq<char>>) -> bool {
    forall|i: int, j: int| 0 <= i < j < list.len() ==> lex_le(list[i], list[j])
}

/// The texts held by a list of character vectors.
pub open spec fn rows(items: Seq<Vec<char>>) -> Seq<Seq<char>> {
    Seq::new(items.len(), |i: int| items[i]@)
}

/// No text comes before itself.
pub proof fn lemma_lex_lt_irreflexive(a: Seq<char>)
    ensures
        !lex_lt(a, a),
{
}

/// The strict order is transitive.
pub proof fn lemma_lex_lt_transitive(a: Seq<char>, b: Seq<char>, c: Seq<char>)
    requires
        lex_lt(a, b),
        lex_lt(b, c),
    ensures
        lex_lt(a, c),
{
    let k1 = choose|k: int| differ_at(a, b, k);
    let k2 = choose|k: int| differ_at(b, c, k);
    let k = if k1 <= k2 {
        k1
    } else {
        k2
    };
    assert(differ_at(a, c, k));
}

/// The order is transitive.
pub proof fn lemma_lex_le_transitive(a: Seq<char>, b: Seq<char>, c: Seq<char>)
    requires
        lex_le(a, b),
        lex_le(b, c),
    ensures
        lex_le(a, c),
{
    if a != b && b != c {
        lemma_lex_lt_transitive(a, b, c);
    }
}

/// A list has one sorted order: two sorted lists with the same texts, each
/// as often, are the same list.
pub proof fn lemma_sorted_permutation_unique(a: Seq<Seq<char>>, b: Seq<Seq<char>>)
    requires
        is_sorted(a),
        is_sorted(b),
        a.to_multiset() == b.to_multiset(),
    ensures
        a == b,
    decreases a.len(),
{
    a.to_multiset_ensures();
    b.to_multiset_ensures();
    if a.len() == 0 {
        assert(a =~= b);
    } else {
        assert(a.contains(a[0]));
        assert(a.to_multiset().count(a[0]) > 0);
        assert(b.to_multiset().count(a[0]) > 0);
        assert(b.contains(a[0]));
        assert(b.len() > 0);
        assert(b.contains(b[0]));
        assert(b.to_multiset().count(b[0]) > 0);
        assert(a.to_multiset().count(b[0]) > 0);
        assert(a.contains(b[0]));
        let k = choose|k: int| 0 <= k < b.len() && b[k] == a[0];
        let m = choose|m: int| 0 <= m < a.len() && a[m] == b[0];
        assert(lex_le(b[0], a[0])) by {
            if k > 0 {
                assert(lex_le(b[0], b[k]));
            }
        }
        assert(lex_le(a[0], b[0])) by {
            if m > 0 {
                assert(lex_le(a[0], a[m]));
            }
        }
        if a[0] != b[0] {
            lemma_lex_lt_transitive(a[0], b[0], a[0]);
            lemma_lex_lt_irreflexive(a[0]);
        }
        to_multiset_remove(a, 0);
        to_multiset_remove(b, 0);
        assert(a.remove(0) =~= a.drop_first());
        assert(b.remove(0) =~= b.drop_first());
        let x = a.drop_first();
        let y = b.drop_first();
        assert forall|i: int, j: int| 0 <= i < j < x.len() implies lex_le(x[i], x[j]) by {
            assert(x[i] == a[i + 1] && x[j] == a[j + 1]);
        }
        assert forall|i: int, j: int| 0 <= i < j < y.len() implies lex_le(y[i], y[j]) by {
            assert(y[i] == b[i + 1] && y[j] == b[j + 1]);
        }
        lemma_sorted_permutation_unique(x, y);
        assert(a =~= seq![a[0]] + x);
        assert(b =~= seq![b[0]] + y);
    }
}

/// How two texts stand to each other.
#[derive(Clone, Copy, Debug, PartialEq, Eq)]
pub enum Position {
    Before,
    Same,
    After,
}

/// Compares two texts lexicographically.
pub fn lex_order(a: &[char], b: &[char]) -> (r: Position)
    ensures
        match r {
            Position::Before => lex_lt(a@, b@),
            Position::Same => a@ == b@,
            Position::After => lex_lt(b@, a@),
        },
{
    let n: usize = a.len();
    let m: usize = b.len();
    let mut i: usize = 0;
    while i < n && i < m
        invariant
            n == a@.len(),
            m == b@.len(),
            i <= n,
            i <= m,
            forall|j: int| 0 <= j < i ==> a@[j] == b@[j],
        decreases n - i,
    {
        let x: char = a[i];
        let y: char = b[i];
        if x < y {
            proof {
                assert(differ_at(a@, b@, i as int));
            }
            return Position::Before;
        }
        if y < x {
            proof {
                assert(differ_at(b@, a@, i as int));
            }
            return Position::After;
        }
        i += 1;
    }
    if n < m {
        proof {
            assert(differ_at(a@, b@, i as int));
        }
        Position::Before
    } else if m < n {
        proof {
            assert(differ_at(b@, a@, i as int));
        }
        Position::After
    } else {
        proof {
            assert(a@ =~= b@);
        }
        Position::Same
    }
}

/// `after` is `before` with `item` put in at some place.
pub open spec fn is_insertion(before: Seq<Seq<char>>, item: Seq<char>, after: Seq<Seq<char>>) -> bool {
    exists|p: int| 0 <= p <= before.len() && after == #[trigger] before.insert(p, item)
}

/// Puts `item` into a sorted list at a place that keeps it sorted.
pub fn insert_sorted(list: &mut Vec<Vec<char>>, item: Vec<char>)
    requires
        is_sorted(rows(old(list)@)),
    ensures
        is_sorted(rows(final(list)@)),
        is_insertion(rows(old(list)@), item@, rows(final(list)@)),
        rows(final(list)@).to_multiset() == rows(old(list)@).to_multiset().insert(item@),
        forall|x: Seq<char>|
            rows(final(list)@).contains(x) <==> (rows(old(list)@).contains(x) || x == item@),
{
    let ghost before = rows(list@);
    let mut p: usize = 0;
    let mut placed: bool = false;
    while p < list.len() && !placed
        invariant
            p <= list@.len(),
            rows(list@) == before,
            forall|j: int| 0 <= j < p ==> lex_le(before[j], item@),
            placed ==> p < list@.len() && lex_lt(item@, before[p as int]),
        decreases list@.len() - p + (if placed { 0int } else { 1int }),
    {
        assert(before[p as int] == list@[p as int]@);
        match lex_order(item.as_slice(), list[p].as_slice()) {
            Position::Before => {
                placed = true;
            },
            _ => {
                p += 1;
            },
        }
    }
    let ghost text = item@;
    list.insert(p, item);
    proof {
        let after = rows(list@);
        assert(after =~= before.insert(p as int, text));
        to_multiset_insert(before, p as int, text);
        assert forall|i: int, j: int| 0 <= i < j < after.len() implies lex_le(
            after[i],
            after[j],
        ) by {
            if j < p {
                assert(after[i] == before[i] && after[j] == before[j]);
            } else if j == p {
                assert(after[i] == before[i]);
            } else if i < p {
                assert(after[i] == before[i] && after[j] == before[j - 1]);
            } else if i == p {
                assert(after[j] == before[j - 1]);
                assert(lex_lt(text, before[p as int]));
                assert(lex_le(before[p as int], before[j - 1]));
                lemma_lex_le_transitive(text, before[p as int], before[j - 1]);
            } else {
                assert(after[i] == before[i - 1] && after[j] == before[j - 1]);
            }
        }
        assert forall|x: Seq<char>| after.contains(x) <==> (before.contains(x) || x == text) by {
            if after.contains(x) {
                let i = choose|i: int| 0 <= i < after.len() && after[i] == x;
                if i < p {
                    assert(before[i] == x);
                } else if i > p {
                    assert(before[i - 1] == x);
                }
            }
            if before.contains(x) {
                let i = choose|i: int| 0 <= i < before.len() && before[i] == x;
                if i < p {
                    assert(after[i] == x);
                } else {
                    assert(after[i + 1] == x);
                }
            }
            if x == text {
                assert(after[p as int] == x);
            }
        }
    }
}

/// The texts of `items`, sorted: the same texts, each as often as it was
/// given, in order.
pub fn sorted_texts(items: &Vec<String>) -> (list: Vec<Vec<char>>)
    ensures
        is_sorted(rows(list@)),
        rows(list@).to_multiset() == texts(items@).to_multiset(),
        list@.len() == items@.len(),
        forall|x: Seq<char>|
            rows(list@).contains(x) <==> exists|i: int| 0 <= i < items@.len() && items@[i]@ == x,
{
    let mut list: Vec<Vec<char>> = Vec::new();
    let mut n: usize = 0;
    proof {
        assert(rows(list@) =~= texts(items@).take(0));
    }
    while n < items.len()
        invariant
            n <= items@.len(),
            is_sorted(rows(list@)),
            list@.len() == n,
            rows(list@).to_multiset() == texts(items@).take(n as int).to_multiset(),
            forall|x: Seq<char>|
                rows(list@).contains(x) <==> exists|i: int| 0 <= i < n && items@[i]@ == x,
        decreases items@.len() - n,
    {
        let item = crate::text::chars_of(items[n].as_str());
        let ghost before = rows(list@);
        insert_sorted(&mut list, item);
        proof {
            let upto = texts(items@).take(n as int);
            assert(texts(items@).take(n + 1) =~= upto.push(item@));
            to_multiset_build(upto, item@);
            assert forall|x: Seq<char>| rows(list@).contains(x) <==> exists|i: int|
                0 <= i < n + 1 && items@[i]@ == x by {
                if before.contains(x) {
                    let i = choose|i: int| 0 <= i < n && items@[i]@ == x;
                    assert(0 <= i < n + 1 && items@[i]@ == x);
                }
                if x == items@[n as int]@ {
                    assert(0 <= n < n + 1 && items@[n as int]@ == x);
                }
            }
        }
        n += 1;
    }
    proof {
        assert(texts(items@).take(items@.len() as int) =~= texts(items@));
    }
    list
}

/// Whether `key` is one of the texts of a sorted list, found by bisection.
pub fn sorted_contains(list: &Vec<Vec<char>>, key: &[char]) -> (r: bool)
    requires
        is_sorted(rows(list@)),
    ensures
        r == rows(list@).contains(key@),
{
    let ghost all = rows(list@);
    let mut lo: usize = 0;
    let mut hi: usize = list.len();
    while lo < hi
        invariant
            lo <= hi <= list@.len(),
            all == rows(list@),
            is_sorted(all),
            forall|i: int| 0 <= i < lo ==> lex_lt(all[i], key@),
            forall|i: int| hi <= i < all.len() ==> lex_lt(key@, all[i]),
        decreases hi - lo,
    {
        let mid: usize = lo + (hi - lo) / 2;
        assert(all[mid as int] == list@[mid as int]@);
        match lex_order(list[mid].as_slice(), key) {
            Position::Same => {
                return true;
            },
            Position::Before => {
                proof {
                    assert forall|i: int| 0 <= i < mid + 1 implies lex_lt(all[i], key@) by {
                        if i < mid {
                            assert(lex_le(all[i], all[mid as int]));
                            if all[i] != all[mid as int] {
                                lemma_lex_lt_transitive(all[i], all[mid as int], key@);
                            }
                        }
                    }
                }
                lo = mid + 1;
            },
            Position::After => {
                proof {
                    assert forall|i: int| mid <= i < all.len() implies lex_lt(key@, all[i]) by {
                        if mid < i {
                            assert(lex_le(all[mid as int], all[i]));
                            if all[i] != all[mid as int] {
                                lemma_lex_lt_transitive(key@, all[mid as int], all[i]);
                            }
                        }
                    }
                }
                hi = mid;
            },
        }
    }
    proof {
        if all.contains(key@) {
            let i = choose|i: int| 0 <= i < all.len() && all[i] == key@;
            lemma_lex_lt_irreflexive(key@);
        }
    }
    false
}

} // verus!
