//! The pieces of the on-disk index that are logic rather than storage: the fingerprint
//! that ties an index to its hprof, the check made when an index is opened, and the
//! encoding of keys and values.
use vstd::prelude::*;

use crate::decode::{be_u64_at, read_u64};
use crate::header::Hprof;
use crate::heap_dump::{PrimitiveArrayType, SubRecord};
use crate::record::{spec_records, RecordModel, RecordTag};
use crate::{Id, ParseError};

verus! {

/// The position of a tag in [`RecordTag`]'s declaration order.
pub open spec fn spec_tag_index(t: RecordTag) -> int {
    match t {
        RecordTag::Utf8 => 0,
        RecordTag::LoadClass => 1,
        RecordTag::UnloadClass => 2,
        RecordTag::StackFrame => 3,
        RecordTag::StackTrace => 4,
        RecordTag::AllocSites => 5,
        RecordTag::HeapSummary => 6,
        RecordTag::StartThread => 7,
        RecordTag::EndThread => 8,
        RecordTag::HeapDump => 9,
        RecordTag::CpuSamples => 10,
        RecordTag::ControlSettings => 11,
        RecordTag::HeapDumpSegment => 12,
        RecordTag::HeapDumpEnd => 13,
    }
}

/// The number of record tags.
pub const NUM_RECORD_TAGS: usize = 14;

pub fn tag_index(t: RecordTag) -> (r: usize)
    ensures
        r == spec_tag_index(t),
        r < NUM_RECORD_TAGS,
{
    match t {
        RecordTag::Utf8 => 0,
        RecordTag::LoadClass => 1,
        RecordTag::UnloadClass => 2,
        RecordTag::StackFrame => 3,
        RecordTag::StackTrace => 4,
        RecordTag::AllocSites => 5,
        RecordTag::HeapSummary => 6,
        RecordTag::StartThread => 7,
        RecordTag::EndThread => 8,
        RecordTag::HeapDump => 9,
        RecordTag::CpuSamples => 10,
        RecordTag::ControlSettings => 11,
        RecordTag::HeapDumpSegment => 12,
        RecordTag::HeapDumpEnd => 13,
    }
}

/// How many of the records have tag `t`.
pub open spec fn tag_count(rs: Seq<RecordModel>, t: RecordTag) -> int
    decreases rs.len(),
{
    if rs.len() == 0 {
        0
    } else {
        tag_count(rs.drop_last(), t) + if rs.last().tag == t { 1int } else { 0int }
    }
}

/// The sum of the numbers in `s`.
pub open spec fn sum(s: Seq<u64>) -> int
    decreases s.len(),
{
    if s.len() == 0 {
        0
    } else {
        sum(s.drop_last()) + s.last()
    }
}

proof fn lemma_elem_le_sum(s: Seq<u64>, k: int)
    requires
        0 <= k < s.len(),
    ensures
        s[k] <= sum(s),
    decreases s.len(),
{
    lemma_sum_nonneg(s.drop_last());
    if k < s.len() - 1 {
        lemma_elem_le_sum(s.drop_last(), k);
    }
}

proof fn lemma_sum_nonneg(s: Seq<u64>)
    ensures
        sum(s) >= 0,
    decreases s.len(),
{
    if s.len() > 0 {
        lemma_sum_nonneg(s.drop_last());
    }
}

proof fn lemma_sum_update(s: Seq<u64>, k: int, v: u64)
    requires
        0 <= k < s.len(),
    ensures
        sum(s.update(k, v)) == sum(s) - s[k] + v,
    decreases s.len(),
{
    if k < s.len() - 1 {
        lemma_sum_update(s.drop_last(), k, v);
        assert(s.update(k, v).drop_last() =~= s.drop_last().update(k, v));
    } else {
        assert(s.update(k, v).drop_last() =~= s.drop_last());
    }
}

/// Counts the records of each tag, with a zero for tags that do not occur. Entry `i`
/// counts the tag at position `i` of [`RecordTag`]'s declaration order.
pub fn record_counts(hprof: &Hprof) -> (r: Result<Vec<u64>, ParseError>)
    ensures
        match spec_records(hprof.records@, 0, hprof.header.id_size) {
            Ok(rs) => r matches Ok(counts) && counts@.len() == NUM_RECORD_TAGS
                && (forall|t: RecordTag| #[trigger] counts@[spec_tag_index(t)] == tag_count(rs, t))
                && sum(counts@) == rs.len() && rs.len() <= hprof.records@.len(),
            Err(e) => r == Err::<Vec<u64>, ParseError>(e),
        },
{
    let mut counts: Vec<u64> = Vec::new();
    while counts.len() < NUM_RECORD_TAGS
        invariant
            counts@.len() <= NUM_RECORD_TAGS,
            forall|i: int| 0 <= i < counts@.len() ==> counts@[i] == 0,
            sum(counts@) == 0,
        decreases NUM_RECORD_TAGS - counts@.len(),
    {
        let ghost before = counts@;
        counts.push(0);
        proof {
            assert(counts@.drop_last() =~= before);
        }
    }
    let mut it = hprof.records_iter();
    let ghost s = hprof.records@;
    let ghost id_size = hprof.header.id_size;
    let ghost mut seen: Seq<RecordModel> = Seq::empty();
    proof {
        assert forall|rest: Seq<RecordModel>| #[trigger] seen.add(rest) == rest by {
            assert(seen.add(rest) =~= rest);
        }
    }
    loop
        invariant
            it.wf(),
            it.data@ == s,
            it.id_size == id_size,
            s == hprof.records@,
            id_size == hprof.header.id_size,
            counts@.len() == NUM_RECORD_TAGS,
            forall|t: RecordTag| #[trigger] counts@[spec_tag_index(t)] == tag_count(seen, t),
            sum(counts@) == seen.len(),
            seen.len() <= it.pos,
            spec_records(s, 0, id_size) == match spec_records(s, it.pos as int, id_size) {
                Ok(rest) => Ok::<Seq<RecordModel>, ParseError>(seen.add(rest)),
                Err(e) => Err(e),
            },
        decreases s.len() - it.pos,
    {
        let ghost pos_before = it.pos as int;
        match it.next() {
            None => {
                proof {
                    assert(seen.add(Seq::<RecordModel>::empty()) =~= seen);
                }
                return Ok(counts);
            },
            Some(Err(e)) => {
                return Err(e);
            },
            Some(Ok(rec)) => {
                let k = tag_index(rec.tag);
                let ghost before = counts@;
                let ghost seen_before = seen;
                proof {
                    lemma_elem_le_sum(counts@, k as int);
                    assert(counts@[k as int] <= seen.len());
                }
                let c = counts[k];
                counts.set(k, c + 1);
                proof {
                    seen = seen.push(rec@);
                    lemma_sum_update(before, k as int, (c + 1) as u64);
                    assert forall|t: RecordTag| #[trigger] counts@[spec_tag_index(t)] == tag_count(seen, t) by {
                        assert(seen.drop_last() =~= seen_before);
                    }
                    assert forall|rest: Seq<RecordModel>| #[trigger] seen_before.add(seq![rec@].add(rest)) == seen.add(rest) by {
                        assert(seen_before.add(seq![rec@].add(rest)) =~= seen.add(rest));
                    }
                }
            },
        }
    }
}

/// What ties an index to the hprof it was built from: the header's timestamp and the
/// number of top-level records.
#[derive(Clone, Copy, Debug, PartialEq, Eq, Structural)]
pub struct HprofFingerprint {
    pub timestamp: u64,
    pub record_count: u64,
}

impl HprofFingerprint {
    /// The fingerprint of an hprof; its record count is the sum of the per-tag counts.
    pub fn from_hprof(hprof: &Hprof) -> (r: Result<HprofFingerprint, ParseError>)
        ensures
            match spec_records(hprof.records@, 0, hprof.header.id_size) {
                Ok(rs) => r matches Ok(f) && f.timestamp == hprof.header.timestamp_millis && f.record_count == rs.len(),
                Err(e) => r == Err::<HprofFingerprint, ParseError>(e),
            },
    {
        let counts = record_counts(hprof)?;
        let records_len = hprof.records.len();
        let mut total: u64 = 0;
        let mut i: usize = 0;
        while i < counts.len()
            invariant
                i <= counts@.len(),
                total == sum(counts@.subrange(0, i as int)),
                sum(counts@) <= hprof.records@.len(),
                records_len == hprof.records@.len(),
            decreases counts@.len() - i,
        {
            proof {
                assert(counts@.subrange(0, i + 1).drop_last() =~= counts@.subrange(0, i as int));
                lemma_sum_prefix_le(counts@, i + 1);
            }
            total = total + counts[i];
            i = i + 1;
        }
        proof {
            assert(counts@.subrange(0, counts@.len() as int) =~= counts@);
        }
        Ok(HprofFingerprint { timestamp: hprof.header.timestamp_millis, record_count: total })
    }
}

proof fn lemma_sum_prefix_le(s: Seq<u64>, k: int)
    requires
        0 <= k <= s.len(),
    ensures
        sum(s.subrange(0, k)) <= sum(s),
    decreases s.len(),
{
    if k < s.len() {
        lemma_sum_prefix_le(s.drop_last(), k);
        assert(s.drop_last().subrange(0, k) =~= s.subrange(0, k));
    } else {
        assert(s.subrange(0, k) =~= s);
    }
}

/// Why an index cannot be used.
#[derive(Clone, Copy, Debug, PartialEq, Eq, Structural)]
pub enum IndexError {
    /// The index was built from another hprof, or its fingerprint is missing.
    FingerprintMismatch,
    /// A stored value has the wrong size or names no primitive type.
    IndexInconsistency,
}

/// Whether stored bytes hold `v` as 8 big-endian bytes.
pub open spec fn holds_be_u64(stored: Seq<u8>, v: u64) -> bool {
    stored.len() == 8 && be_u64_at(stored, 0) == v
}

/// The check made when an index is opened: both stored halves of the fingerprint must
/// be present and equal to the hprof's. Only then may the index be used.
pub fn check_fingerprint(fingerprint: &HprofFingerprint, stored_timestamp: Option<&[u8]>, stored_record_count: Option<&[u8]>)
    -> (r: Result<(), IndexError>)
    ensures
        r is Ok <==> (stored_timestamp matches Some(t) && holds_be_u64(t@, fingerprint.timestamp))
            && (stored_record_count matches Some(c) && holds_be_u64(c@, fingerprint.record_count)),
        r is Err ==> r == Err::<(), IndexError>(IndexError::FingerprintMismatch),
{
    let ts_ok = match stored_timestamp {
        Some(t) => t.len() == 8 && match read_u64(t, 0) {
            Ok((v, _)) => v == fingerprint.timestamp,
            Err(_) => false,
        },
        None => false,
    };
    let count_ok = match stored_record_count {
        Some(c) => c.len() == 8 && match read_u64(c, 0) {
            Ok((v, _)) => v == fingerprint.record_count,
            Err(_) => false,
        },
        None => false,
    };
    if ts_ok && count_ok {
        Ok(())
    } else {
        Err(IndexError::FingerprintMismatch)
    }
}

/// A stored class id: 8 big-endian bytes.
pub fn decode_class_id(stored: &[u8]) -> (r: Result<Id, IndexError>)
    ensures
        match r {
            Ok(id) => stored@.len() == 8 && id.id == be_u64_at(stored@, 0),
            Err(e) => stored@.len() != 8 && e == IndexError::IndexInconsistency,
        },
{
    if stored.len() != 8 {
        return Err(IndexError::IndexInconsistency);
    }
    match read_u64(stored, 0) {
        Ok((v, _)) => Ok(Id { id: v }),
        Err(_) => Err(IndexError::IndexInconsistency),
    }
}

/// A stored primitive-array type: one byte holding the type's code.
pub fn decode_prim_array_type(stored: &[u8]) -> (r: Result<PrimitiveArrayType, IndexError>)
    ensures
        match r {
            Ok(t) => stored@.len() == 1 && PrimitiveArrayType::spec_from_type_code(stored@[0]) == Some(t),
            Err(e) => e == IndexError::IndexInconsistency && (stored@.len() != 1
                || PrimitiveArrayType::spec_from_type_code(stored@[0]) is None),
        },
{
    if stored.len() != 1 {
        return Err(IndexError::IndexInconsistency);
    }
    match PrimitiveArrayType::from_type_code(stored[0]) {
        Some(t) => Ok(t),
        None => Err(IndexError::IndexInconsistency),
    }
}

/// What the first stage of indexing records for one sub-record.
#[derive(Clone, Copy, Debug, PartialEq, Eq, Structural)]
pub enum IndexEntry {
    /// An object or object array, and the id of its class.
    ClassId { obj_id: u64, class_obj_id: u64 },
    /// A primitive array, and the code of its element type.
    PrimArrayType { obj_id: u64, type_code: u8 },
}

/// The index entry of a sub-record: instances and object arrays map to their class,
/// primitive arrays to their element type; other sub-records give none.
pub fn index_entry(sub: &SubRecord) -> (r: Option<IndexEntry>)
    ensures
        match sub {
            SubRecord::Instance(i) => r == Some(IndexEntry::ClassId { obj_id: i.obj_id.id, class_obj_id: i.class_obj_id.id }),
            SubRecord::ObjectArray(a) => r == Some(IndexEntry::ClassId { obj_id: a.obj_id.id, class_obj_id: a.array_class_obj_id.id }),
            SubRecord::PrimitiveArray(p) => r == Some(IndexEntry::PrimArrayType { obj_id: p.obj_id.id, type_code: p.primitive_type.spec_type_code() }),
            _ => r is None,
        },
{
    match sub {
        SubRecord::Instance(i) => Some(IndexEntry::ClassId { obj_id: i.obj_id.id, class_obj_id: i.class_obj_id.id }),
        SubRecord::ObjectArray(a) => Some(IndexEntry::ClassId { obj_id: a.obj_id.id, class_obj_id: a.array_class_obj_id.id }),
        SubRecord::PrimitiveArray(p) => Some(IndexEntry::PrimArrayType { obj_id: p.obj_id.id, type_code: p.primitive_type.type_code() }),
        _ => None,
    }
}

/// The counts of all tags together are the number of records.
pub proof fn lemma_tag_counts_total(rs: Seq<RecordModel>)
    ensures
        tag_count(rs, RecordTag::Utf8) + tag_count(rs, RecordTag::LoadClass) + tag_count(rs, RecordTag::UnloadClass)
            + tag_count(rs, RecordTag::StackFrame) + tag_count(rs, RecordTag::StackTrace) + tag_count(rs, RecordTag::AllocSites)
            + tag_count(rs, RecordTag::HeapSummary) + tag_count(rs, RecordTag::StartThread) + tag_count(rs, RecordTag::EndThread)
            + tag_count(rs, RecordTag::HeapDump) + tag_count(rs, RecordTag::CpuSamples) + tag_count(rs, RecordTag::ControlSettings)
            + tag_count(rs, RecordTag::HeapDumpSegment) + tag_count(rs, RecordTag::HeapDumpEnd) == rs.len(),
    decreases rs.len(),
{
    if rs.len() > 0 {
        lemma_tag_counts_total(rs.drop_last());
    }
}

/// The fingerprint's record count is the sum of the per-tag record counts, and both count
/// the records of the stream.
pub proof fn lemma_fingerprint_counts_records(hprof_records: Seq<u8>, id_size: crate::IdSize, counts: Seq<u64>, fingerprint: HprofFingerprint)
    requires
        spec_records(hprof_records, 0, id_size) is Ok,
        counts.len() == NUM_RECORD_TAGS,
        forall|t: RecordTag| #[trigger] counts[spec_tag_index(t)] == tag_count(spec_records(hprof_records, 0, id_size)->Ok_0, t),
        fingerprint.record_count == spec_records(hprof_records, 0, id_size)->Ok_0.len(),
    ensures
        sum(counts) == fingerprint.record_count,
{
    let rs = spec_records(hprof_records, 0, id_size)->Ok_0;
    lemma_tag_counts_total(rs);
    assert(counts[spec_tag_index(RecordTag::Utf8)] == tag_count(rs, RecordTag::Utf8));
    assert(counts[spec_tag_index(RecordTag::LoadClass)] == tag_count(rs, RecordTag::LoadClass));
    assert(counts[spec_tag_index(RecordTag::UnloadClass)] == tag_count(rs, RecordTag::UnloadClass));
    assert(counts[spec_tag_index(RecordTag::StackFrame)] == tag_count(rs, RecordTag::StackFrame));
    assert(counts[spec_tag_index(RecordTag::StackTrace)] == tag_count(rs, RecordTag::StackTrace));
    assert(counts[spec_tag_index(RecordTag::AllocSites)] == tag_count(rs, RecordTag::AllocSites));
    assert(counts[spec_tag_index(RecordTag::HeapSummary)] == tag_count(rs, RecordTag::HeapSummary));
    assert(counts[spec_tag_index(RecordTag::StartThread)] == tag_count(rs, RecordTag::StartThread));
    assert(counts[spec_tag_index(RecordTag::EndThread)] == tag_count(rs, RecordTag::EndThread));
    assert(counts[spec_tag_index(RecordTag::HeapDump)] == tag_count(rs, RecordTag::HeapDump));
    assert(counts[spec_tag_index(RecordTag::CpuSamples)] == tag_count(rs, RecordTag::CpuSamples));
    assert(counts[spec_tag_index(RecordTag::ControlSettings)] == tag_count(rs, RecordTag::ControlSettings));
    assert(counts[spec_tag_index(RecordTag::HeapDumpSegment)] == tag_count(rs, RecordTag::HeapDumpSegment));
    assert(counts[spec_tag_index(RecordTag::HeapDumpEnd)] == tag_count(rs, RecordTag::HeapDumpEnd));
    reveal_with_fuel(sum, 15);
    assert(counts.drop_last().drop_last().drop_last().drop_last().drop_last().drop_last().drop_last().drop_last()
        .drop_last().drop_last().drop_last().drop_last().drop_last().drop_last().len() == 0);
}

} // verus!
