//! Byte-range plans: which part of a file a request is given, from its
//! `Range` header and the length of the file.
//!
//! One form is read: `bytes=start-end`, with the end optional. Of several
//! ranges only the first counts. Anything else, and a start at or beyond the
//! end of the file, gives the whole file.

use vstd::prelude::*;
use crate::number::{decimal_text, digit_char};
use crate::text::{
    chars_of, copy_range, find_chars, first_occurrence, lemma_first_occurrence, occurs_at,
    starts_with_chars, starts_with_seq,
};

verus! {

/// The part of a file to deliver: `length` bytes from `offset` on.
#[derive(Clone, Copy, Debug, PartialEq, Eq, Structural)]
pub struct DeliveryPlan {
    pub offset: u64,
    pub length: u64,
}

/// `c` is a decimal digit.
pub open spec fn is_digit(c: char) -> bool {
    '0' <= c && c <= '9'
}

/// Every character of `s` is a decimal digit.
pub open spec fn all_digits(s: Seq<char>) -> bool {
    forall|i: int| 0 <= i < s.len() ==> is_digit(#[trigger] s[i])
}

/// The number that the digits of `s` write in base ten.
pub open spec fn decimal(s: Seq<char>) -> nat
    decreases s.len(),
{
    if s.len() == 0 {
        0
    } else {
        (decimal(s.drop_last()) * 10 + (s.last() as int - '0' as int)) as nat
    }
}

/// The number that `s` writes, where it is made of digits and fits in 64 bits.
pub open spec fn number(s: Seq<char>) -> Option<u64> {
    if all_digits(s) && decimal(s) <= u64::MAX {
        Some(decimal(s) as u64)
    } else {
        None
    }
}

/// The first range of a header: what stands between `bytes=` and the first
/// comma, or the end.
pub open spec fn first_unit(header: Seq<char>) -> Option<Seq<char>> {
    if starts_with_seq(header, "bytes="@) {
        let rest = header.skip("bytes="@.len() as int);
        match first_occurrence(rest, seq![',']) {
            Some(i) => Some(rest.take(i)),
            None => Some(rest),
        }
    } else {
        None
    }
}

/// The start and the optional end that a range of the form `start-end`
/// writes.
pub open spec fn bounds_of(unit: Seq<char>) -> Option<(u64, Option<u64>)> {
    match first_occurrence(unit, seq!['-']) {
        Some(i) => {
            let first = unit.take(i);
            let second = unit.skip(i + 1);
            if first.len() == 0 {
                None
            } else {
                match number(first) {
                    Some(start) => if second.len() == 0 {
                        Some((start, None))
                    } else {
                        match number(second) {
                            Some(end) => Some((start, Some(end))),
                            None => None,
                        }
                    },
                    None => None,
                }
            }
        },
        None => None,
    }
}

/// The whole of a file of `content_length` bytes.
pub open spec fn whole(content_length: u64) -> DeliveryPlan {
    DeliveryPlan { offset: 0, length: content_length }
}

/// The plan for given bounds: the end is clamped to the last byte of the
/// file; a start beyond the file, or beyond the end, gives the whole file.
pub open spec fn plan_for(start: u64, end: Option<u64>, content_length: u64) -> DeliveryPlan {
    if start >= content_length {
        whole(content_length)
    } else {
        let last = match end {
            Some(e) => if e < content_length {
                e
            } else {
                (content_length - 1) as u64
            },
            None => (content_length - 1) as u64,
        };
        if last < start {
            whole(content_length)
        } else {
            DeliveryPlan { offset: start, length: (last - start + 1) as u64 }
        }
    }
}

/// The plan for a header and a file length.
pub open spec fn planned(header: Option<Seq<char>>, content_length: u64) -> DeliveryPlan {
    match header {
        Some(h) => match first_unit(h) {
            Some(unit) => match bounds_of(unit) {
                Some((start, end)) => plan_for(start, end, content_length),
                None => whole(content_length),
            },
            None => whole(content_length),
        },
        None => whole(content_length),
    }
}

/// The text of an optional header.
pub open spec fn header_text(header: Option<&str>) -> Option<Seq<char>> {
    match header {
        Some(h) => Some(h@),
        None => None,
    }
}

/// A number never gets smaller when digits are written after it.
pub proof fn lemma_decimal_grows(s: Seq<char>, k: int)
    requires
        all_digits(s),
        0 <= k <= s.len(),
    ensures
        decimal(s.take(k)) <= decimal(s),
    decreases s.len() - k,
{
    if k == s.len() {
        assert(s.take(k) =~= s);
    } else {
        lemma_decimal_grows(s, k + 1);
        let longer = s.take(k + 1);
        assert(longer.drop_last() =~= s.take(k));
        assert(longer.last() == s[k]);
        assert(is_digit(s[k]));
    }
}

/// Every plan lies within the file, and is the whole file unless it starts
/// inside it.
pub proof fn lemma_plan_within_content(header: Option<Seq<char>>, content_length: u64)
    ensures
        planned(header, content_length).offset + planned(header, content_length).length
            <= content_length,
        planned(header, content_length) == whole(content_length) || (planned(
            header,
            content_length,
        ).offset < content_length && planned(header, content_length).length >= 1),
{
}

/// Without a header the plan is the whole file.
pub proof fn lemma_no_header_is_whole(content_length: u64)
    ensures
        planned(None, content_length) == whole(content_length),
{
}

/// The header that asks for the bytes from `start` to `end`, or to the end
/// of the file.
pub open spec fn range_header(start: u64, end: Option<u64>) -> Seq<char> {
    "bytes="@ + decimal_text(start as nat) + seq!['-'] + match end {
        Some(e) => decimal_text(e as nat),
        None => Seq::empty(),
    }
}

/// A number written in base ten is made of digits, and reading it gives the
/// number back.
pub proof fn lemma_decimal_round_trip(n: nat)
    ensures
        all_digits(decimal_text(n)),
        decimal_text(n).len() > 0,
        decimal(decimal_text(n)) == n,
    decreases n,
{
    let s = decimal_text(n);
    if n < 10 {
        assert(s =~= seq![digit_char(n)]);
        assert(s.drop_last() =~= Seq::<char>::empty());
        assert(decimal(s.drop_last()) == 0);
        assert(s.last() == digit_char(n));
    } else {
        lemma_decimal_round_trip(n / 10);
        let head = decimal_text(n / 10);
        assert(s == head.push(digit_char(n % 10)));
        assert(s.drop_last() =~= head);
        assert(s.last() == digit_char(n % 10));
        assert forall|i: int| 0 <= i < s.len() implies is_digit(#[trigger] s[i]) by {
            if i < head.len() {
                assert(s[i] == head[i]);
            }
        }
    }
}

/// In a text whose characters before position `k` are not `c`, and whose
/// character at `k` is, the first occurrence of `c` is at `k`.
proof fn lemma_first_char(s: Seq<char>, c: char, k: int)
    requires
        0 <= k < s.len(),
        s[k] == c,
        forall|i: int| 0 <= i < k ==> s[i] != c,
    ensures
        first_occurrence(s, seq![c]) == Some(k),
{
    lemma_first_occurrence(s, seq![c]);
    assert(s.subrange(k, k + 1) =~= seq![c]);
    assert(occurs_at(s, seq![c], k));
    assert forall|j: int| 0 <= j < k implies !occurs_at(s, seq![c], j) by {
        if occurs_at(s, seq![c], j) {
            assert(s.subrange(j, j + 1)[0] == c);
        }
    }
}

/// A text none of whose characters is `c` has no occurrence of `c`.
proof fn lemma_no_char(s: Seq<char>, c: char)
    requires
        forall|i: int| 0 <= i < s.len() ==> s[i] != c,
    ensures
        first_occurrence(s, seq![c]) is None,
{
    lemma_first_occurrence(s, seq![c]);
    if let Some(j) = first_occurrence(s, seq![c]) {
        assert(s.subrange(j, j + 1)[0] == c);
    }
}

/// Planning is the inverse of writing a range: the header that asks for the
/// bytes from `start` to `end` is planned as those bounds are.
pub proof fn lemma_range_round_trip(start: u64, end: Option<u64>, content_length: u64)
    ensures
        planned(Some(range_header(start, end)), content_length) == plan_for(
            start,
            end,
            content_length,
        ),
{
    let prefix = "bytes="@;
    let first = decimal_text(start as nat);
    let second = match end {
        Some(e) => decimal_text(e as nat),
        None => Seq::<char>::empty(),
    };
    let header = range_header(start, end);
    let unit = first + seq!['-'] + second;
    lemma_decimal_round_trip(start as nat);
    if let Some(e) = end {
        lemma_decimal_round_trip(e as nat);
    }
    assert(header.subrange(0, prefix.len() as int) =~= prefix);
    assert(header.skip(prefix.len() as int) =~= unit);
    assert forall|i: int| 0 <= i < unit.len() implies unit[i] != ',' by {
        if i < first.len() {
            assert(is_digit(first[i]));
        } else if i > first.len() {
            assert(is_digit(second[i - first.len() - 1]));
        }
    }
    lemma_no_char(unit, ',');
    assert(first_unit(header) == Some(unit));
    assert forall|i: int| 0 <= i < first.len() implies unit[i] != '-' by {
        assert(is_digit(first[i]));
    }
    lemma_first_char(unit, '-', first.len() as int);
    assert(unit.take(first.len() as int) =~= first);
    assert(unit.skip(first.len() as int + 1) =~= second);
    assert(bounds_of(unit) == Some((start, end)));
}

/// Asking for bytes 10 to 19 of a file of at least 20 bytes gives those ten
/// bytes, and asking for byte 10 onwards of a file of 30 gives twenty.
pub proof fn lemma_ranges_within_content(content_length: u64)
    ensures
        content_length >= 20 ==> planned(Some(range_header(10, Some(19))), content_length) == (
            DeliveryPlan { offset: 10, length: 10 }),
        planned(Some(range_header(10, None)), 30) == (DeliveryPlan { offset: 10, length: 20 }),
{
    lemma_range_round_trip(10, Some(19), content_length);
    lemma_range_round_trip(10, None, 30);
}

/// Reads the decimal number that `s` writes.
pub fn parse_number(s: &[char]) -> (r: Option<u64>)
    ensures
        r == number(s@),
{
    let n: usize = s.len();
    let mut acc: u64 = 0;
    let mut i: usize = 0;
    proof {
        assert(s@.take(0) =~= Seq::<char>::empty());
    }
    while i < n
        invariant
            n == s@.len(),
            i <= n,
            all_digits(s@.take(i as int)),
            acc == decimal(s@.take(i as int)),
        decreases n - i,
    {
        let c: char = s[i];
        proof {
            let longer = s@.take(i + 1);
            assert(longer.drop_last() =~= s@.take(i as int));
            assert(longer.last() == c);
        }
        if c < '0' || c > '9' {
            proof {
                assert(!is_digit(s@[i as int]));
            }
            return None;
        }
        let d: u64 = (c as u32 - '0' as u32) as u64;
        proof {
            assert forall|j: int| 0 <= j < i + 1 implies is_digit(#[trigger] s@.take(i + 1)[j]) by {
                if j < i {
                    assert(s@.take(i + 1)[j] == s@.take(i as int)[j]);
                }
            }
        }
        if acc > (u64::MAX - d) / 10 {
            proof {
                assert(decimal(s@.take(i + 1)) > u64::MAX);
                if all_digits(s@) {
                    lemma_decimal_grows(s@, i + 1);
                }
            }
            return None;
        }
        acc = acc * 10 + d;
        i += 1;
    }
    proof {
        assert(s@.take(n as int) =~= s@);
    }
    Some(acc)
}

/// Reads a range of the form `start-end`, the end optional.
pub fn parse_bounds(unit: &[char]) -> (r: Option<(u64, Option<u64>)>)
    ensures
        r == bounds_of(unit@),
{
    let dash: Vec<char> = vec!['-'];
    proof {
        assert(dash@ =~= seq!['-']);
        lemma_first_occurrence(unit@, dash@);
    }
    match find_chars(unit, dash.as_slice()) {
        Some(i) => {
            let first = copy_range(unit, 0, i);
            let second = copy_range(unit, i + 1, unit.len());
            proof {
                assert(first@ =~= unit@.take(i as int));
                assert(second@ =~= unit@.skip(i + 1));
            }
            if first.len() == 0 {
                return None;
            }
            match parse_number(first.as_slice()) {
                Some(start) => {
                    if second.len() == 0 {
                        Some((start, None))
                    } else {
                        match parse_number(second.as_slice()) {
                            Some(end) => Some((start, Some(end))),
                            None => None,
                        }
                    }
                },
                None => None,
            }
        },
        None => None,
    }
}

/// The plan for the bounds of a range and the length of the file.
pub fn plan_bounds(start: u64, end: Option<u64>, content_length: u64) -> (r: DeliveryPlan)
    ensures
        r == plan_for(start, end, content_length),
        r.offset + r.length <= content_length,
{
    if start >= content_length {
        return DeliveryPlan { offset: 0, length: content_length };
    }
    let last: u64 = match end {
        Some(e) => if e < content_length {
            e
        } else {
            content_length - 1
        },
        None => content_length - 1,
    };
    if last < start {
        DeliveryPlan { offset: 0, length: content_length }
    } else {
        DeliveryPlan { offset: start, length: last - start + 1 }
    }
}

/// The part of a file of `content_length` bytes that a request with the
/// given `Range` header is served.
pub fn plan(range_header: Option<&str>, content_length: u64) -> (r: DeliveryPlan)
    ensures
        r == planned(header_text(range_header), content_length),
        r.offset + r.length <= content_length,
        range_header is None ==> r == whole(content_length),
{
    let full = DeliveryPlan { offset: 0, length: content_length };
    let header: &str = match range_header {
        Some(h) => h,
        None => {
            return full;
        },
    };
    let chars = chars_of(header);
    let prefix = chars_of("bytes=");
    if !starts_with_chars(chars.as_slice(), prefix.as_slice()) {
        return full;
    }
    let rest = copy_range(chars.as_slice(), prefix.len(), chars.len());
    let comma: Vec<char> = vec![','];
    proof {
        assert(rest@ =~= header@.skip("bytes="@.len() as int));
        assert(comma@ =~= seq![',']);
        lemma_first_occurrence(rest@, comma@);
    }
    let unit = match find_chars(rest.as_slice(), comma.as_slice()) {
        Some(i) => copy_range(rest.as_slice(), 0, i),
        None => rest,
    };
    proof {
        assert(first_unit(header@) == Some(unit@)) by {
            match first_occurrence(rest@, comma@) {
                Some(i) => {
                    assert(unit@ =~= rest@.take(i));
                },
                None => {},
            }
        }
    }
    match parse_bounds(unit.as_slice()) {
        Some((start, end)) => plan_bounds(start, end, content_length),
        None => full,
    }
}

} // verus!
