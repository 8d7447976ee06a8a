//! Streaming a planned part of a file in chunks of bounded size, and the
//! choice between a file and its compressed sibling.
//!
//! The reader holds no file. It says which bytes to read next and is told
//! how many arrived: the caller reads one chunk, hands it to the transport,
//! and asks again only when the transport has taken it.

use vstd::prelude::*;
use crate::range::DeliveryPlan;
use crate::sorted::{lex_order, Position};
use crate::text::{
    chars_of, contains_chars, copy_range, ends_with_chars, ends_with_seq, find_chars,
    first_occurrence, has_occurrence, lemma_first_occurrence,
};

verus! {

/// One read to perform: at most `max_bytes` bytes from `position` on.
#[derive(Clone, Copy, Debug, PartialEq, Eq, Structural)]
pub struct ReadRequest {
    pub position: u64,
    pub max_bytes: u64,
}

/// The state of one response stream: `counter` of the `size` bytes that
/// start at `offset` have been emitted, in chunks of at most `chunk_size`.
#[derive(Clone, Copy, Debug, PartialEq, Eq, Structural)]
pub struct ChunkedReader {
    pub offset: u64,
    pub size: u64,
    pub counter: u64,
    pub chunk_size: u64,
    pub exhausted: bool,
}

/// The smaller of two numbers.
pub open spec fn least(a: nat, b: nat) -> nat {
    if a <= b {
        a
    } else {
        b
    }
}

/// The sizes of the chunks in which `length` bytes are emitted when every
/// read is filled: full chunks, then one shorter chunk for what is left.
pub open spec fn chunk_sizes(length: nat, chunk_size: nat) -> Seq<nat>
    decreases length,
{
    if length == 0 || chunk_size == 0 {
        Seq::empty()
    } else {
        seq![least(chunk_size, length)] + chunk_sizes(
            (length - least(chunk_size, length)) as nat,
            chunk_size,
        )
    }
}

/// The sum of a list of sizes.
pub open spec fn total(sizes: Seq<nat>) -> nat
    decreases sizes.len(),
{
    if sizes.len() == 0 {
        0
    } else {
        sizes[0] + total(sizes.drop_first())
    }
}

/// No chunk is empty or larger than the chunk size, and together the chunks
/// are exactly the planned length.
pub proof fn lemma_chunks_cover_plan(length: nat, chunk_size: nat)
    requires
        chunk_size > 0,
    ensures
        total(chunk_sizes(length, chunk_size)) == length,
        forall|i: int|
            0 <= i < chunk_sizes(length, chunk_size).len() ==> 0 < #[trigger] chunk_sizes(
                length,
                chunk_size,
            )[i] <= chunk_size,
    decreases length,
{
    if length > 0 {
        let first = least(chunk_size, length);
        let rest = chunk_sizes((length - first) as nat, chunk_size);
        lemma_chunks_cover_plan((length - first) as nat, chunk_size);
        let all = chunk_sizes(length, chunk_size);
        assert(all == seq![first] + rest);
        assert(all.drop_first() =~= rest);
        assert(all[0] == first);
        assert forall|i: int| 0 <= i < all.len() implies 0 < #[trigger] all[i] <= chunk_size by {
            if i > 0 {
                assert(all[i] == rest[i - 1]);
            }
        }
    }
}

impl ChunkedReader {
    /// The counter is within the size, and the last position fits in 64 bits.
    pub open spec fn wf(&self) -> bool {
        self.counter <= self.size && self.offset + self.size <= u64::MAX
    }

    /// Nothing more is to be read: everything was emitted, the file ended
    /// early, or no chunk can hold a byte.
    pub open spec fn done(&self) -> bool {
        self.counter == self.size || self.exhausted || self.chunk_size == 0
    }

    /// The read that comes next.
    pub open spec fn upcoming(&self) -> ReadRequest {
        ReadRequest {
            position: (self.offset + self.counter) as u64,
            max_bytes: least(self.chunk_size as nat, (self.size - self.counter) as nat) as u64,
        }
    }

    /// The state after a read that gave `got` bytes; none means that the
    /// file has ended.
    pub open spec fn after(&self, got: u64) -> ChunkedReader {
        ChunkedReader {
            offset: self.offset,
            size: self.size,
            counter: (self.counter + got) as u64,
            chunk_size: self.chunk_size,
            exhausted: got == 0,
        }
    }

    /// The sizes of the chunks still to come when every read is filled.
    pub open spec fn to_come(&self) -> Seq<nat> {
        if self.exhausted {
            Seq::empty()
        } else {
            chunk_sizes((self.size - self.counter) as nat, self.chunk_size as nat)
        }
    }

    /// A reader at the start of a plan.
    pub fn new(plan: DeliveryPlan, chunk_size: u64) -> (r: ChunkedReader)
        requires
            plan.offset + plan.length <= u64::MAX,
        ensures
            r.wf(),
            r == (ChunkedReader {
                offset: plan.offset,
                size: plan.length,
                counter: 0,
                chunk_size,
                exhausted: false,
            }),
    {
        ChunkedReader {
            offset: plan.offset,
            size: plan.length,
            counter: 0,
            chunk_size,
            exhausted: false,
        }
    }

    /// The read to perform next, or `None` when the stream has ended. A read
    /// never asks for more than the chunk size, nor for more than is left of
    /// the plan, and never for nothing.
    pub fn next_read(&self) -> (r: Option<ReadRequest>)
        requires
            self.wf(),
        ensures
            r is None <==> self.done(),
            r is Some ==> r->0 == self.upcoming() && 0 < r->0.max_bytes <= self.chunk_size
                && self.counter + r->0.max_bytes <= self.size,
    {
        if self.counter == self.size || self.exhausted || self.chunk_size == 0 {
            return None;
        }
        let left: u64 = self.size - self.counter;
        let max_bytes: u64 = if self.chunk_size <= left {
            self.chunk_size
        } else {
            left
        };
        Some(ReadRequest { position: self.offset + self.counter, max_bytes })
    }

    /// Records that the read asked for gave `got` bytes, which were emitted
    /// as one chunk. No bytes means that the file has ended: the stream then
    /// ends early.
    pub fn accept(&mut self, got: u64)
        requires
            old(self).wf(),
            !old(self).done(),
            got <= old(self).upcoming().max_bytes,
        ensures
            final(self).wf(),
            *final(self) == old(self).after(got),
            final(self).counter == old(self).counter + got,
    {
        self.counter = self.counter + got;
        self.exhausted = got == 0;
    }

    /// How many bytes of the plan are still to be emitted.
    pub fn remaining(&self) -> (r: u64)
        requires
            self.wf(),
        ensures
            r == self.size - self.counter,
    {
        self.size - self.counter
    }

    /// Whether the whole plan has been emitted.
    pub fn is_complete(&self) -> (r: bool)
        ensures
            r == (self.counter == self.size),
    {
        self.counter == self.size
    }
}

/// A read that is filled emits the first of the chunks to come and leaves
/// the others: so a stream whose reads are all filled emits `chunk_sizes` of
/// its plan, chunk by chunk, and ends complete.
pub proof fn lemma_filled_read_follows_schedule(reader: ChunkedReader)
    requires
        reader.wf(),
        !reader.done(),
    ensures
        reader.to_come().len() > 0,
        reader.to_come()[0] == reader.upcoming().max_bytes,
        reader.after(reader.upcoming().max_bytes).to_come() == reader.to_come().drop_first(),
        reader.after(reader.upcoming().max_bytes).wf(),
{
    let left = (reader.size - reader.counter) as nat;
    let first = least(reader.chunk_size as nat, left);
    let rest = chunk_sizes((left - first) as nat, reader.chunk_size as nat);
    assert(reader.to_come() == seq![first] + rest);
    assert(reader.to_come().drop_first() =~= rest);
}

/// When a stream ends without the file ending early, and chunks can hold
/// bytes, the bytes emitted are exactly the planned length.
pub proof fn lemma_ended_stream_is_complete(reader: ChunkedReader)
    requires
        reader.wf(),
        reader.done(),
        !reader.exhausted,
        reader.chunk_size > 0,
    ensures
        reader.counter == reader.size,
        reader.to_come() == Seq::<nat>::empty(),
{
}

/// What is served for a file.
#[derive(Clone, Copy, Debug, PartialEq, Eq, Structural)]
pub enum Representation {
    /// The file itself.
    Plain,
    /// The compressed sibling that exists beside the file.
    Sibling,
    /// The compressed sibling, which is first to be written.
    NewSibling,
}

/// Whether an `Accept-Encoding` value advertises brotli.
pub open spec fn advertises_brotli(accept_encoding: Seq<char>) -> bool {
    has_occurrence(accept_encoding, "br"@)
}

/// The representation to serve: the sibling where the client takes brotli
/// and the sibling exists; a sibling written now where it does not exist and
/// files may be compressed; else the file itself.
pub open spec fn chosen(brotli: bool, compress_files: bool, sibling_exists: bool) -> Representation {
    if !brotli {
        Representation::Plain
    } else if sibling_exists {
        Representation::Sibling
    } else if compress_files {
        Representation::NewSibling
    } else {
        Representation::Plain
    }
}

/// Whether an `Accept-Encoding` value advertises brotli.
pub fn wants_brotli(accept_encoding: &str) -> (r: bool)
    ensures
        r == advertises_brotli(accept_encoding@),
{
    let chars = chars_of(accept_encoding);
    let br = chars_of("br");
    contains_chars(chars.as_slice(), br.as_slice())
}

/// Chooses the representation to serve.
pub fn select_representation(brotli: bool, compress_files: bool, sibling_exists: bool) -> (r:
    Representation)
    ensures
        r == chosen(brotli, compress_files, sibling_exists),
{
    if !brotli {
        Representation::Plain
    } else if sibling_exists {
        Representation::Sibling
    } else if compress_files {
        Representation::NewSibling
    } else {
        Representation::Plain
    }
}

/// The path of the compressed sibling of a file.
pub fn sibling_path(full_path: &str) -> (r: String)
    ensures
        r@ == full_path@ + ".br"@,
{
    String::from_str(full_path).concat(".br")
}

/// Whether a path is that of a compressed sibling, whose content goes out as
/// it is, marked as brotli.
pub fn is_pre_encoded(full_path: &str) -> (r: bool)
    ensures
        r == ends_with_seq(full_path@, ".br"@),
{
    let chars = chars_of(full_path);
    let suffix = chars_of(".br");
    ends_with_chars(chars.as_slice(), suffix.as_slice())
}

/// A media type without its parameters: what stands before the first `;`.
pub open spec fn bare_type(mime: Seq<char>) -> Seq<char> {
    match first_occurrence(mime, seq![';']) {
        Some(i) => mime.take(i),
        None => mime,
    }
}

/// The media types whose bodies shrink under compression: scripts, JSON,
/// SVG, and the text types of the web.
pub open spec fn shrinks(bare: Seq<char>) -> bool {
    bare == "application/javascript"@ || bare == "application/json"@ || bare
        == "application/x-javascript"@ || bare == "image/svg+xml"@ || bare == "text/css"@ || bare
        == "text/csv"@ || bare == "text/html"@ || bare == "text/plain"@ || bare == "text/xml"@
}

/// Whether a body of the given media type may be compressed.
pub open spec fn is_compressible_type(mime: Seq<char>) -> bool {
    shrinks(bare_type(mime))
}

fn is_text(a: &[char], b: &str) -> (r: bool)
    ensures
        r == (a@ == b@),
{
    let other = chars_of(b);
    match lex_order(a, other.as_slice()) {
        Position::Same => true,
        Position::Before => {
            proof {
                crate::sorted::lemma_lex_lt_irreflexive(a@);
            }
            false
        },
        Position::After => {
            proof {
                crate::sorted::lemma_lex_lt_irreflexive(a@);
            }
            false
        },
    }
}

/// Whether a body of the given media type may be compressed, on disk as a
/// sibling or by the transport.
pub fn is_compressible(mime: &str) -> (r: bool)
    ensures
        r == is_compressible_type(mime@),
{
    let chars = chars_of(mime);
    let mark: Vec<char> = vec![';'];
    proof {
        assert(mark@ =~= seq![';']);
        lemma_first_occurrence(chars@, mark@);
    }
    let bare = match find_chars(chars.as_slice(), mark.as_slice()) {
        Some(i) => copy_range(chars.as_slice(), 0, i),
        None => chars,
    };
    proof {
        assert(bare@ =~= bare_type(mime@));
    }
    let b = bare.as_slice();
    is_text(b, "application/javascript") || is_text(b, "application/json") || is_text(
        b,
        "application/x-javascript",
    ) || is_text(b, "image/svg+xml") || is_text(b, "text/css") || is_text(b, "text/csv")
        || is_text(b, "text/html") || is_text(b, "text/plain") || is_text(b, "text/xml")
}

} // verus!
