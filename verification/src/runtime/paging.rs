use vstd::prelude::*;
use vstd::utf8::valid_utf8;

verus! {

// ---------------------------------------------------------------- raw pages

/// The bytes of a body kept as a list of chunks, in order.
pub open spec fn flatten(chunks: Seq<Seq<u8>>) -> Seq<u8>
    decreases chunks.len(),
{
    if chunks.len() == 0 {
        Seq::empty()
    } else {
        flatten(chunks.drop_last()) + chunks.last()
    }
}

pub open spec fn chunks_view(chunks: Seq<Vec<u8>>) -> Seq<Seq<u8>> {
    chunks.map_values(|c: Vec<u8>| c@)
}

pub open spec fn min_nat(a: int, b: int) -> int {
    if a <= b {
        a
    } else {
        b
    }
}

/// The first byte a page shows: the offset asked for, or the end of the body.
pub open spec fn page_start(offset: usize, total: int) -> int {
    min_nat(offset as int, total)
}

/// Where a page of `length` bytes from `start` ends, within the body.
pub open spec fn page_end(start: int, length: usize, total: int) -> int {
    min_nat(if start + length > usize::MAX { usize::MAX as int } else { start + length }, total)
}

/// A window onto a body: where it starts, what it holds, and how long the body is.
#[derive(Debug, PartialEq, Eq)]
pub struct BodyWindow {
    pub start: usize,
    pub content: Vec<u8>,
    pub total_bytes: usize,
}

impl BodyWindow {
    /// Where the next page starts, while the body goes on past this one.
    pub fn next_offset(&self) -> (r: Option<usize>)
        requires
            self.start + self.content@.len() <= usize::MAX,
        ensures
            r == if self.start + self.content@.len() < self.total_bytes {
                Some((self.start + self.content@.len()) as usize)
            } else {
                None::<usize>
            },
    {
        let end = self.start + self.content.len();
        if end < self.total_bytes {
            Some(end)
        } else {
            None
        }
    }
}

proof fn lemma_flatten_push(chunks: Seq<Seq<u8>>, c: Seq<u8>)
    ensures
        flatten(chunks.push(c)) == flatten(chunks) + c,
{
    assert(chunks.push(c).drop_last() =~= chunks);
}

/// The bytes `[offset, offset + length)` of a body kept in chunks, clamped to the body,
/// gathered chunk by chunk without first joining the chunks.
pub fn page_raw_chunks(chunks: &Vec<Vec<u8>>, offset: usize, length: usize) -> (r: BodyWindow)
    requires
        flatten(chunks_view(chunks@)).len() <= usize::MAX,
    ensures
        ({
            let body = flatten(chunks_view(chunks@));
            let start = page_start(offset, body.len() as int);
            &&& r.total_bytes == body.len()
            &&& r.start == start
            &&& r.content@ == body.subrange(start, page_end(start, length, body.len() as int))
        }),
{
    let ghost cv = chunks_view(chunks@);
    let ghost body = flatten(cv);
    let mut total: usize = 0;
    let mut k: usize = 0;
    assert(cv.subrange(0, 0) =~= Seq::<Seq<u8>>::empty());
    while k < chunks.len()
        invariant
            k <= chunks.len(),
            cv == chunks_view(chunks@),
            body == flatten(cv),
            body.len() <= usize::MAX,
            total == flatten(cv.subrange(0, k as int)).len(),
            flatten(cv.subrange(0, k as int)).len() <= body.len(),
        decreases chunks.len() - k,
    {
        proof {
            assert(cv.subrange(0, k + 1) =~= cv.subrange(0, k as int).push(cv[k as int]));
            lemma_flatten_push(cv.subrange(0, k as int), cv[k as int]);
            lemma_flatten_prefix_len(cv, k + 1);
        }
        total = total + chunks[k].len();
        k = k + 1;
    }
    assert(cv.subrange(0, k as int) =~= cv);
    let start = if offset <= total { offset } else { total };
    let end_wanted = start.saturating_add(length);
    let end = if end_wanted <= total { end_wanted } else { total };
    let mut content: Vec<u8> = Vec::new();
    let mut chunk_start: usize = 0;
    let mut i: usize = 0;
    assert(cv.subrange(0, 0) =~= Seq::<Seq<u8>>::empty());
    assert(body.subrange(start as int, clip(0, start as int, end as int)) =~= Seq::<u8>::empty());
    while i < chunks.len()
        invariant
            i <= chunks.len(),
            cv == chunks_view(chunks@),
            body == flatten(cv),
            total == body.len(),
            start <= end <= total,
            start == page_start(offset, total as int),
            end == page_end(start as int, length, total as int),
            chunk_start == flatten(cv.subrange(0, i as int)).len(),
            chunk_start <= total,
            flatten(cv.subrange(0, i as int)) == body.subrange(0, chunk_start as int),
            content@ == body.subrange(start as int, clip(chunk_start as int, start as int, end as int)),
        decreases chunks.len() - i,
    {
        proof {
            assert(cv.subrange(0, i + 1) =~= cv.subrange(0, i as int).push(cv[i as int]));
            lemma_flatten_push(cv.subrange(0, i as int), cv[i as int]);
            lemma_flatten_prefix_len(cv, i + 1);
            lemma_flatten_prefix(cv, i + 1);
        }
        let chunk = &chunks[i];
        let chunk_end = chunk_start + chunk.len();
        let ghost cs = chunk_start as int;
        let ghost ce = chunk_end as int;
        proof {
            assert(body.subrange(0, ce) == body.subrange(0, cs) + chunk@);
            assert forall|x: int| cs <= x < ce implies body[x] == chunk@[x - cs] by {
                assert(body.subrange(0, ce)[x] == body[x]);
            }
        }
        let ghost before = content@;
        if chunk_end > start && chunk_start < end {
            let local_start = start.saturating_sub(chunk_start);
            let local_end = if end - chunk_start <= chunk.len() { end - chunk_start } else { chunk.len() };
            let mut j: usize = local_start;
            while j < local_end
                invariant
                    local_start <= j <= local_end,
                    local_end <= chunk@.len(),
                    content@ == before + chunk@.subrange(local_start as int, j as int),
                decreases local_end - j,
            {
                content.push(chunk[j]);
                assert(content@ =~= before + chunk@.subrange(local_start as int, j + 1));
                j = j + 1;
            }
            proof {
                assert(local_start == clip(cs, start as int, end as int) - cs);
                assert(local_end == clip(ce, start as int, end as int) - cs);
                assert(content@ =~= body.subrange(start as int, clip(ce, start as int, end as int)));
            }
        } else {
            assert(clip(cs, start as int, end as int) == clip(ce, start as int, end as int));
        }
        if chunk_end >= end {
            assert(clip(ce, start as int, end as int) == end);
            return BodyWindow { start, content, total_bytes: total };
        }
        chunk_start = chunk_end;
        i = i + 1;
    }
    assert(cv.subrange(0, i as int) =~= cv);
    BodyWindow { start, content, total_bytes: total }
}

/// `x` kept within `[lo, hi]`.
pub open spec fn clip(x: int, lo: int, hi: int) -> int {
    if x < lo {
        lo
    } else if x > hi {
        hi
    } else {
        x
    }
}

proof fn lemma_flatten_prefix_len(cv: Seq<Seq<u8>>, k: int)
    requires
        0 <= k <= cv.len(),
    ensures
        flatten(cv.subrange(0, k)).len() <= flatten(cv).len(),
    decreases cv.len() - k,
{
    if k < cv.len() {
        assert(cv.subrange(0, k + 1) =~= cv.subrange(0, k).push(cv[k]));
        lemma_flatten_push(cv.subrange(0, k), cv[k]);
        lemma_flatten_prefix_len(cv, k + 1);
    } else {
        assert(cv.subrange(0, k) =~= cv);
    }
}

proof fn lemma_flatten_prefix(cv: Seq<Seq<u8>>, k: int)
    requires
        0 <= k <= cv.len(),
    ensures
        flatten(cv.subrange(0, k)).len() <= flatten(cv).len(),
        flatten(cv.subrange(0, k)) == flatten(cv).subrange(0, flatten(cv.subrange(0, k)).len() as int),
    decreases cv.len() - k,
{
    if k < cv.len() {
        let a = flatten(cv.subrange(0, k));
        assert(cv.subrange(0, k + 1) =~= cv.subrange(0, k).push(cv[k]));
        lemma_flatten_push(cv.subrange(0, k), cv[k]);
        lemma_flatten_prefix(cv, k + 1);
        let b = flatten(cv.subrange(0, k + 1));
        assert(b == a + cv[k]);
        let whole = flatten(cv);
        assert(b == whole.subrange(0, b.len() as int));
        assert(a =~= b.subrange(0, a.len() as int));
        assert(whole.subrange(0, a.len() as int) =~= whole.subrange(0, b.len() as int).subrange(0, a.len() as int));
    } else {
        assert(cv.subrange(0, k) =~= cv);
        assert(flatten(cv) =~= flatten(cv).subrange(0, flatten(cv).len() as int));
    }
}

// ---------------------------------------------------------------- decoded text pages

/// A character of UTF-8 text starts at `i`, or `i` is the end of the text.
pub open spec fn is_char_boundary(bytes: Seq<u8>, i: int) -> bool {
    i == bytes.len() || (0 <= i < bytes.len() && (bytes[i] & 0xc0u8) != 0x80u8)
}

/// Whether a character of UTF-8 text starts at `index`, or `index` is the end of the text.
pub fn is_utf8_boundary(bytes: &Vec<u8>, index: usize) -> (r: bool)
    ensures
        r == is_char_boundary(bytes@, index as int),
{
    index == bytes.len() || (index < bytes.len() && (bytes[index] & 0xc0u8) != 0x80u8)
}

/// A page of text must start on a character; this says where the nearest ones are.
#[derive(Clone, Copy, Debug, PartialEq, Eq, Structural)]
pub struct MisalignedOffset {
    pub offset: usize,
    pub nearest_start: usize,
    pub nearest_end: usize,
}

/// The boundary nearest below `start`, no more than three bytes back; zero where there is none.
pub open spec fn nearest_start_ok(bytes: Seq<u8>, start: int, r: int) -> bool {
    let lo = if start >= 3 { start - 3 } else { 0 };
    if exists|j: int| lo <= j < start && is_char_boundary(bytes, j) {
        &&& lo <= r < start
        &&& is_char_boundary(bytes, r)
        &&& forall|j: int| r < j < start ==> !is_char_boundary(bytes, j)
    } else {
        r == 0
    }
}

/// The boundary nearest above `start`, no more than three bytes on; the end of the text where
/// there is none.
pub open spec fn nearest_end_ok(bytes: Seq<u8>, start: int, r: int) -> bool {
    let hi = min_nat(start + 3, bytes.len() as int);
    if exists|j: int| start < j <= hi && is_char_boundary(bytes, j) {
        &&& start < r <= hi
        &&& is_char_boundary(bytes, r)
        &&& forall|j: int| start < j < r ==> !is_char_boundary(bytes, j)
    } else {
        r == bytes.len()
    }
}

/// Where a page of text from `start` ends when at most `wanted` bytes were asked for: at the
/// last character boundary not past `wanted`; where that leaves the page empty although
/// bytes were asked for, at the first boundary past `start`, so that a page always moves on.
pub open spec fn text_end_ok(bytes: Seq<u8>, start: int, wanted: int, r: int) -> bool {
    if exists|j: int| start < j <= wanted && is_char_boundary(bytes, j) {
        &&& start < r <= wanted
        &&& is_char_boundary(bytes, r)
        &&& forall|j: int| r < j <= wanted ==> !is_char_boundary(bytes, j)
    } else if wanted > start {
        &&& start < r <= bytes.len()
        &&& is_char_boundary(bytes, r)
        &&& forall|j: int| start < j < r ==> !is_char_boundary(bytes, j)
    } else {
        r == start
    }
}

/// A page of decoded bytes. For text the page must start on a character (else the error
/// says where the nearest characters start) and ends on one; other bytes are paged exactly.
pub fn page_decoded_bytes(bytes: &Vec<u8>, is_text: bool, offset: usize, length: usize) -> (r: Result<
    BodyWindow,
    MisalignedOffset,
>)
    ensures
        ({
            let total = bytes@.len() as int;
            let start = page_start(offset, total);
            let wanted = page_end(start, length, total);
            match r {
                Ok(w) => {
                    &&& w.start == start
                    &&& w.total_bytes == total
                    &&& (is_text ==> is_char_boundary(bytes@, start))
                    &&& if is_text {
                        text_end_ok(bytes@, start, wanted, start + w.content@.len())
                            && w.content@ == bytes@.subrange(start, start + w.content@.len())
                    } else {
                        w.content@ == bytes@.subrange(start, wanted)
                    }
                },
                Err(e) => {
                    &&& is_text && !is_char_boundary(bytes@, start)
                    &&& e.offset == offset
                    &&& nearest_start_ok(bytes@, start, e.nearest_start as int)
                    &&& nearest_end_ok(bytes@, start, e.nearest_end as int)
                },
            }
        }),
{
    let total = bytes.len();
    let start = if offset <= total { offset } else { total };
    let wanted_raw = start.saturating_add(length);
    let wanted = if wanted_raw <= total { wanted_raw } else { total };
    let mut end = wanted;
    if is_text {
        if !is_utf8_boundary(bytes, start) {
            let lo = start.saturating_sub(3);
            let mut j: usize = start;
            while j > lo && !is_utf8_boundary(bytes, j - 1)
                invariant
                    lo <= j <= start,
                    lo == if start >= 3 { start - 3 } else { 0 },
                    start <= total == bytes@.len(),
                    forall|k: int| j <= k < start ==> !is_char_boundary(bytes@, k),
                decreases j,
            {
                j = j - 1;
            }
            let nearest_start: usize = if j > lo { j - 1 } else { 0 };
            let hi_raw = start.saturating_add(3);
            let hi = if hi_raw <= total { hi_raw } else { total };
            let mut k: usize = start + 1;
            while k < hi && !is_utf8_boundary(bytes, k)
                invariant
                    start < k <= hi,
                    hi <= total == bytes@.len(),
                    hi == min_nat(start + 3, total as int),
                    forall|m: int| start < m < k ==> !is_char_boundary(bytes@, m),
                decreases hi - k,
            {
                k = k + 1;
            }
            let nearest_end: usize = if is_utf8_boundary(bytes, k) { k } else { total };
            return Err(MisalignedOffset { offset, nearest_start, nearest_end });
        }
        while end > start && !is_utf8_boundary(bytes, end)
            invariant
                start <= end <= wanted <= total == bytes@.len(),
                forall|m: int| end < m <= wanted ==> !is_char_boundary(bytes@, m),
            decreases end,
        {
            end = end - 1;
        }
        if end == start && wanted > start {
            end = start + 1;
            while end < total && !is_utf8_boundary(bytes, end)
                invariant
                    start < end <= total == bytes@.len(),
                    forall|m: int| start < m < end ==> !is_char_boundary(bytes@, m),
                decreases total - end,
            {
                end = end + 1;
            }
        }
    }
    let mut content: Vec<u8> = Vec::new();
    let mut i: usize = start;
    while i < end
        invariant
            start <= i <= end <= total == bytes@.len(),
            content@ == bytes@.subrange(start as int, i as int),
        decreases end - i,
    {
        content.push(bytes[i]);
        assert(content@ =~= bytes@.subrange(start as int, i + 1));
        i = i + 1;
    }
    Ok(BodyWindow { start, content, total_bytes: total })
}

// ---------------------------------------------------------------- decoded bodies

/// A body after its content codings were undone.
#[derive(Debug, PartialEq, Eq)]
pub struct DecodedBytes {
    pub bytes: Vec<u8>,
    pub encoding_chain: Vec<String>,
    pub output_limited: bool,
}

/// Calls `std::str::from_utf8`, which accepts a byte slice exactly when it is UTF-8.
#[verifier::external_body]
fn bytes_are_utf8(bytes: &[u8]) -> (r: bool)
    ensures
        r == valid_utf8(bytes@),
{
    std::str::from_utf8(bytes).is_ok()
}

impl DecodedBytes {
    /// Whether the decoded bytes are UTF-8 text.
    pub fn is_utf8(&self) -> (r: bool)
        ensures
            r == valid_utf8(self.bytes@),
    {
        bytes_are_utf8(self.bytes.as_slice())
    }
}

/// A page of a decoded body: UTF-8 text is paged on character boundaries, other bytes
/// exactly.
pub fn page_decoded_body(decoded: &DecodedBytes, offset: usize, length: usize) -> (r: Result<BodyWindow, MisalignedOffset>)
    ensures
        ({
            let bytes = decoded.bytes@;
            let is_text = valid_utf8(bytes);
            let total = bytes.len() as int;
            let start = page_start(offset, total);
            let wanted = page_end(start, length, total);
            match r {
                Ok(w) => {
                    &&& w.start == start
                    &&& w.total_bytes == total
                    &&& (is_text ==> is_char_boundary(bytes, start))
                    &&& if is_text {
                        text_end_ok(bytes, start, wanted, start + w.content@.len())
                            && w.content@ == bytes.subrange(start, start + w.content@.len())
                    } else {
                        w.content@ == bytes.subrange(start, wanted)
                    }
                },
                Err(e) => {
                    &&& is_text && !is_char_boundary(bytes, start)
                    &&& e.offset == offset
                    &&& nearest_start_ok(bytes, start, e.nearest_start as int)
                    &&& nearest_end_ok(bytes, start, e.nearest_end as int)
                },
            }
        }),
{
    let is_text = decoded.is_utf8();
    page_decoded_bytes(&decoded.bytes, is_text, offset, length)
}

} // verus!
