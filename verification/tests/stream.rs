use katwebx::range::{plan, DeliveryPlan};
use katwebx::stream::{
    is_compressible, is_pre_encoded, select_representation, sibling_path, wants_brotli,
    ChunkedReader, ReadRequest, Representation,
};

fn run(plan: DeliveryPlan, chunk_size: u64, file_len: u64) -> (Vec<ReadRequest>, Vec<u64>, ChunkedReader) {
    let mut reader = ChunkedReader::new(plan, chunk_size);
    let mut asked = Vec::new();
    let mut emitted = Vec::new();
    while let Some(request) = reader.next_read() {
        let available = file_len.saturating_sub(request.position);
        let got = request.max_bytes.min(available);
        asked.push(request);
        if got > 0 {
            emitted.push(got);
        }
        reader.accept(got);
    }
    (asked, emitted, reader)
}

#[test]
fn chunks_are_bounded_and_sum_to_the_plan() {
    for (offset, length, chunk) in [(0u64, 100u64, 30u64), (10, 90, 90), (5, 1, 64), (0, 65_536 * 3, 65_536), (7, 13, 1)] {
        let p = DeliveryPlan { offset, length };
        let (asked, emitted, reader) = run(p, chunk, offset + length);
        assert!(emitted.iter().all(|n| *n > 0 && *n <= chunk));
        assert_eq!(emitted.iter().sum::<u64>(), length);
        assert!(reader.is_complete());
        assert_eq!(reader.remaining(), 0);
        let mut position = offset;
        for (request, got) in asked.iter().zip(emitted.iter()) {
            assert_eq!(request.position, position);
            position += got;
        }
    }
}

#[test]
fn a_hundred_bytes_in_chunks_of_thirty() {
    let (asked, emitted, _) = run(DeliveryPlan { offset: 10, length: 100 }, 30, 1_000);
    assert_eq!(emitted, vec![30, 30, 30, 10]);
    assert_eq!(
        asked,
        vec![
            ReadRequest { position: 10, max_bytes: 30 },
            ReadRequest { position: 40, max_bytes: 30 },
            ReadRequest { position: 70, max_bytes: 30 },
            ReadRequest { position: 100, max_bytes: 10 },
        ]
    );
}

#[test]
fn an_empty_plan_emits_nothing() {
    let (asked, emitted, reader) = run(DeliveryPlan { offset: 0, length: 0 }, 16, 0);
    assert!(asked.is_empty());
    assert!(emitted.is_empty());
    assert!(reader.is_complete());
}

#[test]
fn a_file_that_ends_early_ends_the_stream() {
    let (asked, emitted, reader) = run(DeliveryPlan { offset: 0, length: 100 }, 30, 45);
    assert_eq!(emitted, vec![30, 15]);
    assert_eq!(asked.len(), 3);
    assert!(!reader.is_complete());
    assert!(reader.exhausted);
    assert_eq!(reader.remaining(), 55);
    assert_eq!(reader.next_read(), None);
}

#[test]
fn a_chunk_size_of_zero_reads_nothing() {
    let reader = ChunkedReader::new(DeliveryPlan { offset: 0, length: 10 }, 0);
    assert_eq!(reader.next_read(), None);
}

#[test]
fn a_planned_range_is_streamed_whole() {
    let p = plan(Some("bytes=10-19"), 64);
    let (_, emitted, reader) = run(p, 4, 64);
    assert_eq!(emitted, vec![4, 4, 2]);
    assert!(reader.is_complete());
}

#[test]
fn representation_follows_the_client_and_the_disk() {
    assert!(wants_brotli("gzip, deflate, br"));
    assert!(wants_brotli("br"));
    assert!(!wants_brotli("gzip, deflate"));
    assert!(!wants_brotli(""));
    assert_eq!(select_representation(false, true, true), Representation::Plain);
    assert_eq!(select_representation(true, true, true), Representation::Sibling);
    assert_eq!(select_representation(true, false, true), Representation::Sibling);
    assert_eq!(select_representation(true, true, false), Representation::NewSibling);
    assert_eq!(select_representation(true, false, false), Representation::Plain);
}

#[test]
fn siblings_carry_the_brotli_suffix() {
    assert_eq!(sibling_path("html/index.html"), "html/index.html.br");
    assert!(is_pre_encoded("html/index.html.br"));
    assert!(!is_pre_encoded("html/index.html"));
    assert!(!is_pre_encoded("br"));
}

#[test]
fn text_and_scripts_may_be_compressed() {
    for mime in [
        "application/javascript", "application/json", "application/x-javascript", "image/svg+xml",
        "text/css", "text/csv", "text/html", "text/plain", "text/xml",
        "text/html; charset=utf-8", "text/plain;charset=latin1",
    ] {
        assert!(is_compressible(mime), "{}", mime);
    }
    for mime in ["image/png", "application/octet-stream", "", "text/htm", "text/html ", "x; text/html", "application/pdf"] {
        assert!(!is_compressible(mime), "{}", mime);
    }
}
