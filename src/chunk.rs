//! Sorted chunks: `(key, value)` entries buffered in memory, sorted, and written out in
//! a fixed-width little-endian encoding.
use vstd::prelude::*;
use vstd::multiset::Multiset;
use vstd::seq_lib::group_to_multiset_ensures;

verus! {

broadcast use group_to_multiset_ensures;

/// The order of entries by key, then by value.
pub open spec fn entry_le(a: (u64, u64), b: (u64, u64)) -> bool {
    a.0 < b.0 || (a.0 == b.0 && a.1 <= b.1)
}

/// Whether the entries are in ascending order of key, then of value.
pub open spec fn sorted_entries(s: Seq<(u64, u64)>) -> bool {
    forall|i: int, j: int| 0 <= i <= j < s.len() ==> entry_le(s[i], s[j])
}

/// Relies on `<[T]>::sort_unstable`: it puts the slice's items in ascending order (for
/// pairs: by first component, then by second), keeping the same items.
#[verifier::external_body]
fn sort_entries(v: &mut Vec<(u64, u64)>)
    ensures
        final(v)@.to_multiset() == old(v)@.to_multiset(),
        sorted_entries(final(v)@),
{
    v.sort_unstable();
}

/// Entries sorted by key and value are fixed by the multiset they hold: two sorted
/// sequences of the same entries are equal.
pub proof fn lemma_sorted_entries_unique(a: Seq<(u64, u64)>, b: Seq<(u64, u64)>)
    requires
        sorted_entries(a),
        sorted_entries(b),
        a.to_multiset() == b.to_multiset(),
    ensures
        a == b,
    decreases a.len(),
{
    assert(a.len() == a.to_multiset().len());
    assert(b.len() == b.to_multiset().len());
    if a.len() == 0 {
        assert(a =~= b);
    } else {
        let x = a[0];
        let y = b[0];
        assert(a.contains(x));
        assert(a.to_multiset().count(x) > 0);
        assert(b.contains(x));
        let j = choose|j: int| 0 <= j < b.len() && b[j] == x;
        assert(entry_le(y, b[j]));
        assert(b.contains(y));
        assert(b.to_multiset().count(y) > 0);
        assert(a.contains(y));
        let i = choose|i: int| 0 <= i < a.len() && a[i] == y;
        assert(entry_le(a[0], a[i]));
        assert(x == y);
        let a2 = a.remove(0);
        let b2 = b.remove(0);
        assert(a2.to_multiset() == a.to_multiset().remove(x));
        assert(b2.to_multiset() == b.to_multiset().remove(y));
        assert forall|p: int, q: int| 0 <= p <= q < a2.len() implies entry_le(a2[p], a2[q]) by {
            assert(a2[p] == a[p + 1] && a2[q] == a[q + 1]);
        }
        assert forall|p: int, q: int| 0 <= p <= q < b2.len() implies entry_le(b2[p], b2[q]) by {
            assert(b2[p] == b[p + 1] && b2[q] == b[q + 1]);
        }
        lemma_sorted_entries_unique(a2, b2);
        assert(a =~= seq![x].add(a2));
        assert(b =~= seq![y].add(b2));
    }
}

/// One sorted chunk: the entries that one writer flushed, identified by the record it
/// belongs to and its position among that writer's chunks.
pub struct SortedChunk {
    pub record_index: usize,
    pub chunk_index: usize,
    pub entries: Vec<(u64, u64)>,
}

/// Buffers `(key, value)` entries and hands them out as sorted chunks whenever the
/// buffer is full, or when it is flushed.
pub struct SortedChunkWriter {
    pub record_index: usize,
    pub capacity: usize,
    pub chunks_written: usize,
    pub buffer: Vec<(u64, u64)>,
}

impl SortedChunkWriter {
    pub open spec fn wf(&self) -> bool {
        self.capacity > 0 && self.buffer@.len() < self.capacity
    }

    pub fn new(record_index: usize, capacity: usize) -> (r: SortedChunkWriter)
        requires
            capacity > 0,
        ensures
            r.wf(),
            r.record_index == record_index,
            r.capacity == capacity,
            r.chunks_written == 0,
            r.buffer@.len() == 0,
    {
        SortedChunkWriter { record_index, capacity, chunks_written: 0, buffer: Vec::new() }
    }

    /// Sorts the buffered entries into a new chunk and empties the buffer; `None` where
    /// the buffer is empty.
    pub fn flush(&mut self) -> (r: Option<SortedChunk>)
        requires
            old(self).capacity > 0,
            old(self).chunks_written < usize::MAX,
        ensures
            final(self).wf(),
            final(self).record_index == old(self).record_index,
            final(self).capacity == old(self).capacity,
            final(self).buffer@.len() == 0,
            old(self).buffer@.len() == 0 ==> r is None && final(self).chunks_written == old(self).chunks_written,
            old(self).buffer@.len() > 0 ==> (r matches Some(c) && c.record_index == old(self).record_index
                && c.chunk_index == old(self).chunks_written && sorted_entries(c.entries@)
                && c.entries@.to_multiset() == old(self).buffer@.to_multiset()
                && final(self).chunks_written == old(self).chunks_written + 1),
    {
        if self.buffer.len() == 0 {
            return None;
        }
        let mut entries: Vec<(u64, u64)> = Vec::new();
        std::mem::swap(&mut entries, &mut self.buffer);
        sort_entries(&mut entries);
        let chunk = SortedChunk { record_index: self.record_index, chunk_index: self.chunks_written, entries };
        self.chunks_written = self.chunks_written + 1;
        Some(chunk)
    }

    /// Buffers one entry; where that fills the buffer, flushes it and returns the chunk.
    pub fn append(&mut self, key: u64, value: u64) -> (r: Option<SortedChunk>)
        requires
            old(self).wf(),
            old(self).chunks_written < usize::MAX,
        ensures
            final(self).wf(),
            final(self).record_index == old(self).record_index,
            final(self).capacity == old(self).capacity,
            old(self).buffer@.len() + 1 < old(self).capacity ==> r is None
                && final(self).buffer@ == old(self).buffer@.push((key, value))
                && final(self).chunks_written == old(self).chunks_written,
            old(self).buffer@.len() + 1 == old(self).capacity ==> (r matches Some(c)
                && c.record_index == old(self).record_index && c.chunk_index == old(self).chunks_written
                && sorted_entries(c.entries@) && c.entries@.to_multiset() == old(self).buffer@.push((key, value)).to_multiset()
                && final(self).buffer@.len() == 0 && final(self).chunks_written == old(self).chunks_written + 1),
    {
        self.buffer.push((key, value));
        if self.buffer.len() == self.capacity {
            self.flush()
        } else {
            None
        }
    }
}

/// Byte `i` (0 for the lowest) of `v`.
pub open spec fn le_byte(v: u64, i: u64) -> u8 {
    ((v >> (8 * i)) & 0xff) as u8
}

/// The eight bytes of `v`, lowest first.
pub open spec fn le_bytes(v: u64) -> Seq<u8> {
    seq![le_byte(v, 0), le_byte(v, 1), le_byte(v, 2), le_byte(v, 3), le_byte(v, 4), le_byte(v, 5), le_byte(v, 6), le_byte(v, 7)]
}

/// The 16-byte encoding of entries: each key, then its value, little-endian.
pub open spec fn encoded_u64_entries(s: Seq<(u64, u64)>) -> Seq<u8>
    decreases s.len(),
{
    if s.len() == 0 {
        Seq::empty()
    } else {
        encoded_u64_entries(s.drop_last()).add(le_bytes(s.last().0)).add(le_bytes(s.last().1))
    }
}

/// The 9-byte encoding of entries with byte values: each key little-endian, then its value.
pub open spec fn encoded_u8_entries(s: Seq<(u64, u8)>) -> Seq<u8>
    decreases s.len(),
{
    if s.len() == 0 {
        Seq::empty()
    } else {
        encoded_u8_entries(s.drop_last()).add(le_bytes(s.last().0)).push(s.last().1)
    }
}

fn push_le_u64(out: &mut Vec<u8>, v: u64)
    ensures
        final(out)@ == old(out)@.add(le_bytes(v)),
{
    let ghost start = out@;
    let mut i: u64 = 0;
    while i < 8
        invariant
            i <= 8,
            out@ == start.add(le_bytes(v).subrange(0, i as int)),
        decreases 8 - i,
    {
        out.push(((v >> (8 * i)) & 0xff) as u8);
        proof {
            assert(out@ =~= start.add(le_bytes(v).subrange(0, i + 1)));
        }
        i = i + 1;
    }
    proof {
        assert(le_bytes(v).subrange(0, 8) =~= le_bytes(v));
    }
}

/// Encodes entries as 16 bytes each: the key, then the value, both little-endian.
pub fn encode_u64_entries(entries: &Vec<(u64, u64)>) -> (r: Vec<u8>)
    ensures
        r@ == encoded_u64_entries(entries@),
{
    let mut out: Vec<u8> = Vec::new();
    let mut i: usize = 0;
    while i < entries.len()
        invariant
            i <= entries@.len(),
            out@ == encoded_u64_entries(entries@.subrange(0, i as int)),
        decreases entries@.len() - i,
    {
        push_le_u64(&mut out, entries[i].0);
        push_le_u64(&mut out, entries[i].1);
        proof {
            let t = entries@.subrange(0, i + 1);
            assert(t.drop_last() =~= entries@.subrange(0, i as int));
        }
        i = i + 1;
    }
    proof {
        assert(entries@.subrange(0, entries@.len() as int) =~= entries@);
    }
    out
}

/// Encodes entries whose values are bytes as 9 bytes each: the key little-endian, then
/// the value.
pub fn encode_u8_entries(entries: &Vec<(u64, u8)>) -> (r: Vec<u8>)
    ensures
        r@ == encoded_u8_entries(entries@),
{
    let mut out: Vec<u8> = Vec::new();
    let mut i: usize = 0;
    while i < entries.len()
        invariant
            i <= entries@.len(),
            out@ == encoded_u8_entries(entries@.subrange(0, i as int)),
        decreases entries@.len() - i,
    {
        push_le_u64(&mut out, entries[i].0);
        out.push(entries[i].1);
        proof {
            let t = entries@.subrange(0, i + 1);
            assert(t.drop_last() =~= entries@.subrange(0, i as int));
        }
        i = i + 1;
    }
    proof {
        assert(entries@.subrange(0, entries@.len() as int) =~= entries@);
    }
    out
}

/// The bytes of a flushed chunk depend only on which entries were appended, not on the
/// order of the appends: two chunks sorted from the same multiset of entries encode to
/// the same bytes.
pub proof fn lemma_chunk_bytes_order_free(a: Seq<(u64, u64)>, b: Seq<(u64, u64)>)
    requires
        sorted_entries(a),
        sorted_entries(b),
        a.to_multiset() == b.to_multiset(),
    ensures
        encoded_u64_entries(a) == encoded_u64_entries(b),
{
    lemma_sorted_entries_unique(a, b);
}

/// The little-endian `u64` stored at `s[i..i + 8]`.
pub open spec fn le_u64_at(s: Seq<u8>, i: int) -> u64 {
    (s[i] as u64) | ((s[i + 1] as u64) << 8) | ((s[i + 2] as u64) << 16) | ((s[i + 3] as u64) << 24)
        | ((s[i + 4] as u64) << 32) | ((s[i + 5] as u64) << 40) | ((s[i + 6] as u64) << 48) | ((s[i + 7] as u64) << 56)
}

/// Reading back the eight bytes of `v` gives `v`.
pub proof fn lemma_le_bytes_round_trip(v: u64)
    ensures
        le_u64_at(le_bytes(v), 0) == v,
{
    let b = le_bytes(v);
    assert(b[0] == le_byte(v, 0) && b[1] == le_byte(v, 1) && b[2] == le_byte(v, 2) && b[3] == le_byte(v, 3));
    assert(b[4] == le_byte(v, 4) && b[5] == le_byte(v, 5) && b[6] == le_byte(v, 6) && b[7] == le_byte(v, 7));
    assert(((((v >> 0u64) & 0xff) as u8) as u64) | (((((v >> 8u64) & 0xff) as u8) as u64) << 8) | (((((v >> 16u64) & 0xff) as u8) as u64) << 16)
        | (((((v >> 24u64) & 0xff) as u8) as u64) << 24) | (((((v >> 32u64) & 0xff) as u8) as u64) << 32)
        | (((((v >> 40u64) & 0xff) as u8) as u64) << 40) | (((((v >> 48u64) & 0xff) as u8) as u64) << 48)
        | (((((v >> 56u64) & 0xff) as u8) as u64) << 56) == v) by (bit_vector);
}

fn read_le_u64(s: &[u8], i: usize) -> (r: u64)
    requires
        i + 8 <= s@.len(),
    ensures
        r == le_u64_at(s@, i as int),
{
    (s[i] as u64) | ((s[i + 1] as u64) << 8) | ((s[i + 2] as u64) << 16) | ((s[i + 3] as u64) << 24)
        | ((s[i + 4] as u64) << 32) | ((s[i + 5] as u64) << 40) | ((s[i + 6] as u64) << 48) | ((s[i + 7] as u64) << 56)
}

/// Decodes a chunk of 16-byte entries; `None` where the length is not a multiple of 16.
pub fn decode_u64_entries(bytes: &[u8]) -> (r: Option<Vec<(u64, u64)>>)
    ensures
        bytes@.len() % 16 != 0 <==> r is None,
        r matches Some(v) ==> v@.len() * 16 == bytes@.len() && forall|i: int| 0 <= i < v@.len()
            ==> #[trigger] v@[i] == (le_u64_at(bytes@, 16 * i), le_u64_at(bytes@, 16 * i + 8)),
{
    if bytes.len() % 16 != 0 {
        return None;
    }
    let total = bytes.len();
    let n = total / 16;
    let mut out: Vec<(u64, u64)> = Vec::new();
    let mut i: usize = 0;
    let mut pos: usize = 0;
    while i < n
        invariant
            n * 16 == bytes@.len(),
            total == bytes@.len(),
            i <= n,
            pos == 16 * i,
            out@.len() == i,
            forall|p: int| 0 <= p < i ==> #[trigger] out@[p] == (le_u64_at(bytes@, 16 * p), le_u64_at(bytes@, 16 * p + 8)),
        decreases n - i,
    {
        let k = read_le_u64(bytes, pos);
        let v = read_le_u64(bytes, pos + 8);
        out.push((k, v));
        i = i + 1;
        pos = pos + 16;
    }
    Some(out)
}

} // verus!
