use katwebx::range::{parse_bounds, parse_number, plan, plan_bounds, DeliveryPlan};

fn chars(s: &str) -> Vec<char> {
    s.chars().collect()
}

#[test]
fn no_header_gives_the_whole_file() {
    for len in [0u64, 1, 20, 30, u64::MAX] {
        assert_eq!(plan(None, len), DeliveryPlan { offset: 0, length: len });
    }
}

#[test]
fn closed_range_gives_its_bytes() {
    for len in [20u64, 21, 30, 1_000_000, u64::MAX] {
        assert_eq!(plan(Some("bytes=10-19"), len), DeliveryPlan { offset: 10, length: 10 });
    }
}

#[test]
fn open_range_runs_to_the_end() {
    assert_eq!(plan(Some("bytes=10-"), 30), DeliveryPlan { offset: 10, length: 20 });
    assert_eq!(plan(Some("bytes=0-"), 30), DeliveryPlan { offset: 0, length: 30 });
    assert_eq!(plan(Some("bytes=29-"), 30), DeliveryPlan { offset: 29, length: 1 });
}

#[test]
fn end_is_clamped_to_the_last_byte() {
    assert_eq!(plan(Some("bytes=10-19"), 15), DeliveryPlan { offset: 10, length: 5 });
    assert_eq!(plan(Some("bytes=0-18446744073709551615"), 4), DeliveryPlan { offset: 0, length: 4 });
}

#[test]
fn start_beyond_the_file_gives_the_whole_file() {
    assert_eq!(plan(Some("bytes=30-"), 30), DeliveryPlan { offset: 0, length: 30 });
    assert_eq!(plan(Some("bytes=31-40"), 30), DeliveryPlan { offset: 0, length: 30 });
    assert_eq!(plan(Some("bytes=0-"), 0), DeliveryPlan { offset: 0, length: 0 });
}

#[test]
fn unreadable_headers_give_the_whole_file() {
    for header in [
        "", "bytes", "bytes=", "bytes=-", "bytes=-5", "bytes=a-b", "bytes=5", "bytes=9-5",
        "bytes= 1-2", "bytes=1 -2", "items=1-2", "Bytes=1-2", "bytes=1-2x",
        "bytes=18446744073709551616-", "bytes=1-18446744073709551616", "bytes=1--2",
    ] {
        assert_eq!(plan(Some(header), 30), DeliveryPlan { offset: 0, length: 30 }, "{}", header);
    }
}

#[test]
fn only_the_first_range_counts() {
    assert_eq!(plan(Some("bytes=1-2,5-9"), 30), DeliveryPlan { offset: 1, length: 2 });
    assert_eq!(plan(Some("bytes=4-,junk"), 30), DeliveryPlan { offset: 4, length: 26 });
    assert_eq!(plan(Some("bytes=junk,1-2"), 30), DeliveryPlan { offset: 0, length: 30 });
}

#[test]
fn plans_stay_within_the_file() {
    for header in ["bytes=0-0", "bytes=5-", "bytes=5-500", "bytes=29-29", "bytes=7-3", "x"] {
        for len in [0u64, 1, 6, 30] {
            let p = plan(Some(header), len);
            assert!(p.offset + p.length <= len);
        }
    }
}

#[test]
fn numbers_are_read_in_base_ten() {
    assert_eq!(parse_number(&chars("0")), Some(0));
    assert_eq!(parse_number(&chars("007")), Some(7));
    assert_eq!(parse_number(&chars("18446744073709551615")), Some(u64::MAX));
    assert_eq!(parse_number(&chars("18446744073709551616")), None);
    assert_eq!(parse_number(&chars("99999999999999999999999")), None);
    assert_eq!(parse_number(&chars("12a")), None);
    assert_eq!(parse_number(&chars("+1")), None);
    assert_eq!(parse_number(&chars("")), Some(0));
}

#[test]
fn bounds_are_read_from_one_range() {
    assert_eq!(parse_bounds(&chars("10-19")), Some((10, Some(19))));
    assert_eq!(parse_bounds(&chars("10-")), Some((10, None)));
    assert_eq!(parse_bounds(&chars("-19")), None);
    assert_eq!(parse_bounds(&chars("10")), None);
    assert_eq!(parse_bounds(&chars("1-2-3")), None);
    assert_eq!(plan_bounds(9, Some(5), 30), DeliveryPlan { offset: 0, length: 30 });
    assert_eq!(plan_bounds(5, Some(5), 30), DeliveryPlan { offset: 5, length: 1 });
}
