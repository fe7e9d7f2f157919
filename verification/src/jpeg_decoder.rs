use vstd::prelude::*;

verus! {

/// Number of bytes of the fixed fragment header.
pub const HEADER_LEN: usize = 18;

/// Descriptor carried by every image fragment.
#[derive(Clone, Copy, Debug, PartialEq, Eq, Structural)]
pub struct JPEGHeader {
    /// Reserved; carried through.
    pub label: i32,
    /// The logical image this fragment belongs to.
    pub id: i32,
    /// Size of the whole assembled image.
    pub length: i32,
    /// Where this fragment's payload starts in the assembled image.
    pub offset: i32,
    /// Whether the assembled image is a gzip stream.
    pub gzip: bool,
    /// Carried through, never interpreted.
    pub color_reduction: u8,
}

/// Why a fragment header could not be read.
#[derive(Clone, Copy, Debug, PartialEq, Eq, Structural)]
pub enum HeaderError {
    /// Fewer than eighteen bytes were supplied.
    MalformedHeader,
}

/// The signed 32-bit integer that four bytes spell in little-endian order.
pub open spec fn le_i32(b: Seq<u8>) -> int
    recommends
        b.len() == 4,
{
    let u = b[0] as int + 256 * (b[1] as int) + 65536 * (b[2] as int) + 16777216 * (b[3] as int);
    if u >= 0x8000_0000 {
        u - 0x1_0000_0000
    } else {
        u
    }
}

/// The header that the first eighteen bytes of `b` spell.
pub open spec fn header_of(b: Seq<u8>) -> JPEGHeader
    recommends
        b.len() >= 18,
{
    JPEGHeader {
        label: le_i32(b.subrange(0, 4)) as i32,
        id: le_i32(b.subrange(4, 8)) as i32,
        length: le_i32(b.subrange(8, 12)) as i32,
        offset: le_i32(b.subrange(12, 16)) as i32,
        gzip: b[16] != 0,
        color_reduction: b[17],
    }
}

fn read_i32_le(data: &[u8], at: usize) -> (r: i32)
    requires
        at + 4 <= data.len(),
    ensures
        r as int == le_i32(data@.subrange(at as int, at + 4)),
{
    let b0: u32 = data[at] as u32;
    let b1: u32 = data[at + 1] as u32;
    let b2: u32 = data[at + 2] as u32;
    let b3: u32 = data[at + 3] as u32;
    let u: u32 = b0 + 256 * b1 + 65536 * b2 + 16777216 * b3;
    if u >= 0x8000_0000 {
        let low: i32 = (u - 0x8000_0000) as i32;
        low + i32::MIN
    } else {
        u as i32
    }
}

impl JPEGHeader {
    /// Reads a header from the first eighteen bytes of `data`: four
    /// little-endian signed integers, a flag byte and a raw byte.
    pub fn new(data: &[u8]) -> (r: Result<Self, HeaderError>)
        ensures
            data@.len() >= 18 ==> r == Ok::<JPEGHeader, HeaderError>(header_of(data@)),
            data@.len() < 18 ==> r == Err::<JPEGHeader, HeaderError>(HeaderError::MalformedHeader),
    {
        if data.len() < HEADER_LEN {
            return Err(HeaderError::MalformedHeader);
        }
        Ok(
            JPEGHeader {
                label: read_i32_le(data, 0),
                id: read_i32_le(data, 4),
                length: read_i32_le(data, 8),
                offset: read_i32_le(data, 12),
                gzip: data[16] != 0,
                color_reduction: data[17],
            },
        )
    }
}

/// Why a fragment was refused.
#[derive(Clone, Copy, Debug, PartialEq, Eq, Structural)]
pub enum FragmentError {
    /// The payload would end past the image's total length, or start
    /// before its first byte.
    FragmentOutOfBounds,
}

impl FragmentError {
    /// The condition in words.
    pub fn message(&self) -> (r: String)
        ensures
            r@ == "Data exceeds header length"@,
    {
        "Data exceeds header length".to_owned()
    }
}

/// What a reassembler holds: the header of the image in progress, the
/// buffer being filled and the number of payload bytes taken so far.
pub struct ReassemblyState {
    pub header: JPEGHeader,
    pub buffer: Seq<u8>,
    pub received: nat,
}

/// What one fragment leads to.
pub enum Outcome {
    /// More bytes are awaited.
    Incomplete,
    /// The byte count reached the total length; the image is handed out.
    Complete(Seq<u8>),
    /// The fragment does not fit; nothing was written.
    OutOfBounds,
}

/// Length of the buffer that an image with this header is assembled in.
pub open spec fn capacity_of(header: JPEGHeader) -> nat {
    if header.length > 0 {
        header.length as nat
    } else {
        0
    }
}

/// The state in which nothing of the image with this header has arrived:
/// a zero-filled buffer of the total length and a count of zero.
pub open spec fn fresh(header: JPEGHeader) -> ReassemblyState {
    ReassemblyState {
        header,
        buffer: Seq::new(capacity_of(header), |i: int| 0u8),
        received: 0,
    }
}

/// The state that a fragment with this header is applied to: a fresh one
/// where the fragment belongs to another image than the one in progress.
pub open spec fn selected(s: ReassemblyState, header: JPEGHeader) -> ReassemblyState {
    if header.id != s.header.id {
        fresh(header)
    } else {
        s
    }
}

/// Whether a payload of `len` bytes at the header's offset lies within
/// the image, by the fragment's own total length and by that of the image
/// in progress.
pub open spec fn in_bounds(s: ReassemblyState, header: JPEGHeader, len: nat) -> bool {
    &&& 0 <= header.offset
    &&& header.offset + len <= header.length
    &&& header.offset + len <= s.header.length
}

/// `buf` with `src` written over it from index `at` on.
pub open spec fn overlay(buf: Seq<u8>, at: int, src: Seq<u8>) -> Seq<u8> {
    Seq::new(
        buf.len(),
        |i: int|
            if at <= i < at + src.len() {
                src[i - at]
            } else {
                buf[i]
            },
    )
}

/// A byte count, held at the largest value the counter can take.
pub open spec fn saturated(n: nat) -> nat {
    if n > u64::MAX {
        u64::MAX as nat
    } else {
        n
    }
}

/// The state after a payload that fits was written.
pub open spec fn written(s: ReassemblyState, header: JPEGHeader, payload: Seq<u8>) -> ReassemblyState {
    ReassemblyState {
        header: s.header,
        buffer: overlay(s.buffer, header.offset as int, payload),
        received: saturated(s.received + payload.len()),
    }
}

/// Whether the byte count has reached the image's total length.
pub open spec fn is_complete(s: ReassemblyState) -> bool {
    s.received >= s.header.length
}

/// What the gzip decoder of `flate2` makes of `data`: the bytes it decodes,
/// or `None` where it reports an error.
pub uninterp spec fn inflated(data: Seq<u8>) -> Option<Seq<u8>>;

/// The bytes handed out for a completed buffer: the decoded stream where
/// the image is flagged as gzip and decoding succeeded, else the buffer as
/// it was received.
pub open spec fn emitted(buffer: Seq<u8>, gzip: bool, decoded: Option<Seq<u8>>) -> Seq<u8> {
    if gzip && decoded is Some {
        decoded->Some_0
    } else {
        buffer
    }
}

/// The reassembler's state after a fragment.
pub open spec fn after(s: ReassemblyState, header: JPEGHeader, payload: Seq<u8>) -> ReassemblyState {
    let t = selected(s, header);
    if in_bounds(t, header, payload.len()) {
        written(t, header, payload)
    } else {
        t
    }
}

/// What a fragment leads to.
pub open spec fn outcome(s: ReassemblyState, header: JPEGHeader, payload: Seq<u8>) -> Outcome {
    let t = selected(s, header);
    if !in_bounds(t, header, payload.len()) {
        Outcome::OutOfBounds
    } else {
        let w = written(t, header, payload);
        if is_complete(w) {
            Outcome::Complete(emitted(w.buffer, w.header.gzip, inflated(w.buffer)))
        } else {
            Outcome::Incomplete
        }
    }
}

/// The outcome that a returned value stands for.
pub open spec fn outcome_of(r: Result<Option<Vec<u8>>, FragmentError>) -> Outcome {
    match r {
        Ok(None) => Outcome::Incomplete,
        Ok(Some(bytes)) => Outcome::Complete(bytes@),
        Err(_) => Outcome::OutOfBounds,
    }
}

/// Decodes a gzip stream with `flate2::read::GzDecoder`, read to its end.
/// The claim: the result is a function of the input bytes alone, `Some`
/// with the decoded bytes where the decoder reports no error and `None`
/// where it reports one.
#[verifier::external_body]
fn gunzip(data: &[u8]) -> (r: Option<Vec<u8>>)
    ensures
        match r {
            Some(bytes) => inflated(data@) == Some(bytes@),
            None => inflated(data@) is None,
        },
{
    let mut buf = Vec::new();
    let mut decoder = flate2::read::GzDecoder::new(data);
    match std::io::Read::read_to_end(&mut decoder, &mut buf) {
        Ok(_) => Some(buf),
        Err(_) => None,
    }
}

fn zeroed(n: usize) -> (v: Vec<u8>)
    ensures
        v@ == Seq::new(n as nat, |i: int| 0u8),
{
    let v = vec![0u8; n];
    assert(v@ =~= Seq::new(n as nat, |i: int| 0u8));
    v
}

fn write_at(buf: &mut Vec<u8>, at: usize, src: &[u8])
    requires
        at + src.len() <= old(buf).len(),
    ensures
        final(buf)@ == overlay(old(buf)@, at as int, src@),
{
    let ghost before = buf@;
    let mut i: usize = 0;
    while i < src.len()
        invariant
            i <= src.len(),
            at + src.len() <= buf.len(),
            buf.len() == before.len(),
            forall|j: int|
                0 <= j < buf.len() ==> buf@[j] == if at <= j < at + i {
                    src@[j - at]
                } else {
                    before[j]
                },
        decreases src.len() - i,
    {
        buf.set(at + i, src[i]);
        i += 1;
    }
    assert(buf@ =~= overlay(before, at as int, src@));
}

fn copy_of(src: &Vec<u8>) -> (v: Vec<u8>)
    ensures
        v@ == src@,
{
    let mut v: Vec<u8> = Vec::new();
    v.extend_from_slice(src.as_slice());
    v
}

/// Accumulates the fragments of one image at a time.
pub struct JPEGDecoder {
    header: JPEGHeader,
    data: Vec<u8>,
    byte_received: u64,
}

impl View for JPEGDecoder {
    type V = ReassemblyState;

    closed spec fn view(&self) -> ReassemblyState {
        ReassemblyState {
            header: self.header,
            buffer: self.data@,
            received: self.byte_received as nat,
        }
    }
}

impl JPEGDecoder {
    /// The buffer is as long as the total length of the image in progress.
    pub closed spec fn wf(&self) -> bool {
        self.data@.len() == capacity_of(self.header)
    }

    /// A reassembler that awaits the image with this header.
    pub fn new(header: JPEGHeader) -> (r: Self)
        ensures
            r.wf(),
            r@ == fresh(header),
    {
        let n: usize = if header.length > 0 {
            header.length as usize
        } else {
            0
        };
        JPEGDecoder { header, data: zeroed(n), byte_received: 0 }
    }

    /// Header of the image in progress.
    pub fn header(&self) -> (r: JPEGHeader)
        ensures
            r == self@.header,
    {
        self.header
    }

    /// Number of payload bytes taken for the image in progress.
    pub fn byte_received(&self) -> (r: u64)
        ensures
            r == self@.received,
    {
        self.byte_received
    }

    /// The buffer of the image in progress.
    pub fn buffer(&self) -> (r: &Vec<u8>)
        ensures
            r@ == self@.buffer,
    {
        &self.data
    }

    /// The bytes to hand out for a completed buffer, given what gzip
    /// decoding of it gave.
    pub fn finish_image(buffer: &Vec<u8>, gzip: bool, decoded: Option<Vec<u8>>) -> (r: Vec<u8>)
        ensures
            r@ == emitted(
                buffer@,
                gzip,
                match decoded {
                    Some(d) => Some(d@),
                    None => None,
                },
            ),
    {
        if gzip {
            match decoded {
                Some(d) => d,
                None => copy_of(buffer),
            }
        } else {
            copy_of(buffer)
        }
    }

    /// Takes one fragment. A fragment of another image than the one in
    /// progress discards what was assembled and starts afresh. A payload
    /// that does not fit is refused and nothing is written. Otherwise the
    /// payload is written at its offset and counted; once the count reaches
    /// the total length the image is handed out, gzip-decoded where it is
    /// flagged so and decodes, as received otherwise.
    pub fn append_data(&mut self, header: JPEGHeader, data: &Vec<u8>) -> (r: Result<
        Option<Vec<u8>>,
        FragmentError,
    >)
        requires
            old(self).wf(),
        ensures
            final(self).wf(),
            final(self)@ == after(old(self)@, header, data@),
            outcome_of(r) == outcome(old(self)@, header, data@),
    {
        if header.id != self.header.id {
            let n: usize = if header.length > 0 {
                header.length as usize
            } else {
                0
            };
            self.header = header;
            self.data = zeroed(n);
            self.byte_received = 0;
        }
        let len: usize = data.len();
        let cap: usize = self.data.len();
        if header.offset < 0 || header.length < 0 || self.header.length < 0 {
            return Err(FragmentError::FragmentOutOfBounds);
        }
        let offset: usize = header.offset as usize;
        let limit: usize = header.length as usize;
        if len > cap || offset > cap - len || len > limit || offset > limit - len {
            return Err(FragmentError::FragmentOutOfBounds);
        }
        write_at(&mut self.data, offset, data.as_slice());
        let taken: u64 = len as u64;
        self.byte_received = if u64::MAX - self.byte_received < taken {
            u64::MAX
        } else {
            self.byte_received + taken
        };
        if self.byte_received < self.header.length as u64 {
            return Ok(None);
        }
        let decoded: Option<Vec<u8>> = if self.header.gzip {
            gunzip(self.data.as_slice())
        } else {
            None
        };
        Ok(Some(Self::finish_image(&self.data, self.header.gzip, decoded)))
    }
}

/// One fragment as plain values.
pub struct Fragment {
    pub header: JPEGHeader,
    pub payload: Seq<u8>,
}

/// The state after the fragments of a sequence, taken in order.
pub open spec fn after_all(s: ReassemblyState, frags: Seq<Fragment>) -> ReassemblyState
    decreases frags.len(),
{
    if frags.len() == 0 {
        s
    } else {
        after(after_all(s, frags.drop_last()), frags.last().header, frags.last().payload)
    }
}

/// Number of payload bytes in a sequence of fragments.
pub open spec fn payload_total(frags: Seq<Fragment>) -> nat
    decreases frags.len(),
{
    if frags.len() == 0 {
        0
    } else {
        payload_total(frags.drop_last()) + frags.last().payload.len()
    }
}

/// Two fragments share no byte of the image.
pub open spec fn apart(a: Fragment, b: Fragment) -> bool {
    ||| a.header.offset + a.payload.len() <= b.header.offset
    ||| b.header.offset + b.payload.len() <= a.header.offset
}

/// The fragments belong to the image `id` of `total` bytes and cover it
/// exactly once: each lies within the image, no two share a byte, and
/// their lengths add up to the total.
pub open spec fn tiles(frags: Seq<Fragment>, id: i32, total: i32) -> bool {
    &&& forall|k: int|
        0 <= k < frags.len() ==> {
            &&& (#[trigger] frags[k]).header.id == id
            &&& frags[k].header.length == total
            &&& 0 <= frags[k].header.offset
            &&& frags[k].header.offset + frags[k].payload.len() <= total
        }
    &&& forall|j: int, k: int| 0 <= j < k < frags.len() ==> apart(frags[j], frags[k])
    &&& payload_total(frags) == total
}

/// Where a fragment's payload lies in a buffer.
pub open spec fn window(buffer: Seq<u8>, f: Fragment) -> Seq<u8> {
    buffer.subrange(f.header.offset as int, f.header.offset + f.payload.len())
}

proof fn lemma_total_prefix(frags: Seq<Fragment>, n: int)
    requires
        0 <= n <= frags.len(),
    ensures
        payload_total(frags.take(n)) <= payload_total(frags),
    decreases frags.len() - n,
{
    if n == frags.len() {
        assert(frags.take(n) =~= frags);
    } else {
        lemma_total_prefix(frags, n + 1);
        assert(frags.take(n + 1).drop_last() =~= frags.take(n));
    }
}

proof fn lemma_tiling_prefix(
    s0: ReassemblyState,
    frags: Seq<Fragment>,
    id: i32,
    total: i32,
    n: int,
)
    requires
        tiles(frags, id, total),
        1 <= n <= frags.len(),
        s0 == fresh(frags[0].header) || s0.header.id != id,
    ensures
        ({
            let st = after_all(s0, frags.take(n));
            let prev = after_all(s0, frags.take(n - 1));
            &&& st.header == frags[0].header
            &&& st.buffer.len() == total
            &&& st.received == payload_total(frags.take(n))
            &&& st.received <= total
            &&& forall|k: int| 0 <= k < n ==> window(st.buffer, #[trigger] frags[k]) == frags[k].payload
            &&& outcome(prev, frags[n - 1].header, frags[n - 1].payload) == (if st.received
                < total {
                Outcome::Incomplete
            } else {
                Outcome::Complete(emitted(st.buffer, st.header.gzip, inflated(st.buffer)))
            })
        }),
    decreases n,
{
    let f = frags[n - 1];
    let cur = frags.take(n);
    assert(cur.drop_last() =~= frags.take(n - 1));
    assert(cur.last() == f);
    lemma_total_prefix(frags, n);
    let prev = after_all(s0, frags.take(n - 1));
    let st = after_all(s0, cur);
    assert(st == after(prev, f.header, f.payload));
    if n == 1 {
        assert(frags.take(0) =~= Seq::<Fragment>::empty());
        assert(payload_total(frags.take(0)) == 0);
        assert(prev == s0);
        let t = selected(s0, f.header);
        assert(t == fresh(f.header));
        assert(in_bounds(t, f.header, f.payload.len()));
        assert(window(st.buffer, f) =~= f.payload);
    } else {
        lemma_tiling_prefix(s0, frags, id, total, n - 1);
        let t = selected(prev, f.header);
        assert(t == prev);
        assert(in_bounds(t, f.header, f.payload.len()));
        assert forall|k: int| 0 <= k < n implies window(st.buffer, #[trigger] frags[k])
            == frags[k].payload by {
            if k < n - 1 {
                assert(apart(frags[k], f));
                assert(window(prev.buffer, frags[k]) == frags[k].payload);
                assert(window(st.buffer, frags[k]) =~= window(prev.buffer, frags[k]));
            } else {
                assert(window(st.buffer, f) =~= f.payload);
            }
        }
    }
}

/// Fragments of one image that cover it exactly once, taken in any order
/// by a reassembler that is fresh for the image or holds another one,
/// complete the image at the last of them: the buffer has the image's
/// length and holds every payload at its offset, which makes it the
/// payloads joined in the order of their offsets, and it is handed out.
/// Each earlier fragment that leaves bytes missing is answered with
/// `Incomplete`.
pub proof fn lemma_tiling_completes(
    s0: ReassemblyState,
    frags: Seq<Fragment>,
    id: i32,
    total: i32,
)
    requires
        frags.len() > 0,
        tiles(frags, id, total),
        s0 == fresh(frags[0].header) || s0.header.id != id,
    ensures
        ({
            let end = after_all(s0, frags);
            &&& end.buffer.len() == total
            &&& forall|k: int|
                0 <= k < frags.len() ==> window(end.buffer, #[trigger] frags[k])
                    == frags[k].payload
            &&& outcome(
                after_all(s0, frags.drop_last()),
                frags.last().header,
                frags.last().payload,
            ) == Outcome::Complete(emitted(end.buffer, frags[0].header.gzip, inflated(end.buffer)))
            &&& forall|n: int|
                #![trigger frags.take(n)]
                0 <= n < frags.len() && payload_total(frags.take(n + 1)) < total ==> outcome(
                    after_all(s0, frags.take(n)),
                    frags[n].header,
                    frags[n].payload,
                ) == Outcome::Incomplete
        }),
{
    let len = frags.len() as int;
    lemma_tiling_prefix(s0, frags, id, total, len);
    assert(frags.take(len) =~= frags);
    assert(frags.take(len - 1) =~= frags.drop_last());
    assert forall|n: int|
        #![trigger frags.take(n)]
        0 <= n < frags.len() && payload_total(frags.take(n + 1)) < total implies outcome(
        after_all(s0, frags.take(n)),
        frags[n].header,
        frags[n].payload,
    ) == Outcome::Incomplete by {
        lemma_tiling_prefix(s0, frags, id, total, n + 1);
    }
}

/// The payloads of a sequence of fragments, joined in sequence order.
pub open spec fn joined(frags: Seq<Fragment>) -> Seq<u8>
    decreases frags.len(),
{
    if frags.len() == 0 {
        Seq::<u8>::empty()
    } else {
        joined(frags.drop_last()) + frags.last().payload
    }
}

/// The fragments stand in the order of their offsets and leave no gap:
/// the first starts at zero and each next one where the one before ends.
pub open spec fn in_offset_order(frags: Seq<Fragment>) -> bool {
    forall|k: int|
        0 <= k < frags.len() ==> (#[trigger] frags[k]).header.offset == (if k == 0 {
            0
        } else {
            frags[k - 1].header.offset + frags[k - 1].payload.len()
        })
}

/// Where the first `n` fragments of a gapless sequence end.
pub open spec fn end_of(frags: Seq<Fragment>, n: int) -> int {
    if n <= 0 {
        0
    } else {
        frags[n - 1].header.offset + frags[n - 1].payload.len()
    }
}

proof fn lemma_joined_prefix(buffer: Seq<u8>, sorted: Seq<Fragment>, n: int)
    requires
        in_offset_order(sorted),
        0 <= n <= sorted.len(),
        forall|k: int|
            0 <= k < sorted.len() ==> (#[trigger] sorted[k]).header.offset
                + sorted[k].payload.len() <= buffer.len() && window(buffer, sorted[k])
                == sorted[k].payload,
    ensures
        0 <= end_of(sorted, n) <= buffer.len(),
        joined(sorted.take(n)) == buffer.subrange(0, end_of(sorted, n)),
    decreases n,
{
    if n == 0 {
        assert(sorted.take(0) =~= Seq::<Fragment>::empty());
        assert(joined(sorted.take(0)) =~= buffer.subrange(0, 0));
    } else {
        lemma_joined_prefix(buffer, sorted, n - 1);
        let f = sorted[n - 1];
        assert(sorted.take(n).drop_last() =~= sorted.take(n - 1));
        assert(sorted.take(n).last() == f);
        assert(f.header.offset == end_of(sorted, n - 1));
        assert(window(buffer, f) == f.payload);
        assert(buffer.subrange(0, end_of(sorted, n - 1)) + window(buffer, f) =~= buffer.subrange(
            0,
            end_of(sorted, n),
        ));
    }
}

/// The image that a tiling completes is its payloads joined in the order
/// of their offsets: whatever the order in which the fragments `frags`
/// arrived, the buffer equals the payloads of the same fragments put in
/// offset order, `sorted`, one after the other.
pub proof fn lemma_tiling_joins(
    s0: ReassemblyState,
    frags: Seq<Fragment>,
    sorted: Seq<Fragment>,
    id: i32,
    total: i32,
)
    requires
        frags.len() > 0,
        tiles(frags, id, total),
        s0 == fresh(frags[0].header) || s0.header.id != id,
        in_offset_order(sorted),
        end_of(sorted, sorted.len() as int) == total,
        forall|k: int| 0 <= k < sorted.len() ==> frags.contains(#[trigger] sorted[k]),
    ensures
        after_all(s0, frags).buffer == joined(sorted),
        outcome(after_all(s0, frags.drop_last()), frags.last().header, frags.last().payload)
            == Outcome::Complete(
            emitted(joined(sorted), frags[0].header.gzip, inflated(joined(sorted))),
        ),
{
    lemma_tiling_completes(s0, frags, id, total);
    let buffer = after_all(s0, frags).buffer;
    assert forall|k: int| 0 <= k < sorted.len() implies (#[trigger] sorted[k]).header.offset
        + sorted[k].payload.len() <= buffer.len() && window(buffer, sorted[k])
        == sorted[k].payload by {
        let j = choose|j: int| 0 <= j < frags.len() && frags[j] == sorted[k];
        assert(window(buffer, frags[j]) == frags[j].payload);
    }
    lemma_joined_prefix(buffer, sorted, sorted.len() as int);
    assert(sorted.take(sorted.len() as int) =~= sorted);
    assert(buffer.subrange(0, total as int) =~= buffer);
}

/// A fragment that ends past its image's total length is refused, and
/// the byte count stays as it was. This is stated for a fragment of the
/// image in progress, and for a reassembler that has counted nothing: a
/// fragment of another image resets the count before it is refused.
pub proof fn lemma_out_of_bounds_refused(s: ReassemblyState, header: JPEGHeader, payload: Seq<u8>)
    requires
        header.offset + payload.len() > header.length,
        header.id == s.header.id || s.received == 0,
    ensures
        outcome(s, header, payload) == Outcome::OutOfBounds,
        after(s, header, payload).received == s.received,
        header.id == s.header.id ==> after(s, header, payload) == s,
{
}

/// A fragment of another image than the one in progress discards what
/// was assembled: the reassembler goes on as one that is fresh for the
/// new image, with a buffer of the new total length.
pub proof fn lemma_new_image_resets(s: ReassemblyState, header: JPEGHeader, payload: Seq<u8>)
    requires
        header.id != s.header.id,
    ensures
        after(s, header, payload) == after(fresh(header), header, payload),
        outcome(s, header, payload) == outcome(fresh(header), header, payload),
        after(s, header, payload).header == header,
        after(s, header, payload).buffer.len() == capacity_of(header),
        after(s, header, payload).received == (if in_bounds(fresh(header), header, payload.len()) {
            payload.len()
        } else {
            0
        }),
{
}

} // verus!
