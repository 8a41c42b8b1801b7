//! Top-level record framing: a tag byte, a timestamp offset, a length and a body.
use vstd::prelude::*;

use crate::decode::{be_u32_at, fits, read_u32, read_u8};
use crate::heap_dump::HeapDumpSegment;
use crate::record_body::{spec_load_class, spec_stack_frame, spec_stack_trace, spec_utf8, LoadClass, StackFrame, StackTrace, Utf8, StackTraceModel, Utf8Model};
use crate::{EnumIterable, IdSize, ParseError};

verus! {

/// What kind of data a [`Record`] holds. The variants are declared in the order of
/// their tag bytes, so the derived order is the order of the tag bytes.
#[derive(Clone, Copy, Debug, PartialEq, Eq, PartialOrd, Ord, Hash, Structural)]
pub enum RecordTag {
    Utf8,
    LoadClass,
    UnloadClass,
    StackFrame,
    StackTrace,
    AllocSites,
    HeapSummary,
    StartThread,
    EndThread,
    HeapDump,
    CpuSamples,
    ControlSettings,
    HeapDumpSegment,
    HeapDumpEnd,
}

impl RecordTag {
    pub open spec fn spec_tag_byte(self) -> u8 {
        match self {
            RecordTag::Utf8 => 0x01,
            RecordTag::LoadClass => 0x02,
            RecordTag::UnloadClass => 0x03,
            RecordTag::StackFrame => 0x04,
            RecordTag::StackTrace => 0x05,
            RecordTag::AllocSites => 0x06,
            RecordTag::HeapSummary => 0x07,
            RecordTag::StartThread => 0x0A,
            RecordTag::EndThread => 0x0B,
            RecordTag::HeapDump => 0x0C,
            RecordTag::CpuSamples => 0x0D,
            RecordTag::ControlSettings => 0x0E,
            RecordTag::HeapDumpSegment => 0x1C,
            RecordTag::HeapDumpEnd => 0x2C,
        }
    }

    /// The tag whose byte is `b`, if any.
    pub open spec fn spec_from_tag_byte(b: u8) -> Option<RecordTag> {
        if b == 0x01 { Some(RecordTag::Utf8) }
        else if b == 0x02 { Some(RecordTag::LoadClass) }
        else if b == 0x03 { Some(RecordTag::UnloadClass) }
        else if b == 0x04 { Some(RecordTag::StackFrame) }
        else if b == 0x05 { Some(RecordTag::StackTrace) }
        else if b == 0x06 { Some(RecordTag::AllocSites) }
        else if b == 0x07 { Some(RecordTag::HeapSummary) }
        else if b == 0x0A { Some(RecordTag::StartThread) }
        else if b == 0x0B { Some(RecordTag::EndThread) }
        else if b == 0x0C { Some(RecordTag::HeapDump) }
        else if b == 0x0D { Some(RecordTag::CpuSamples) }
        else if b == 0x0E { Some(RecordTag::ControlSettings) }
        else if b == 0x1C { Some(RecordTag::HeapDumpSegment) }
        else if b == 0x2C { Some(RecordTag::HeapDumpEnd) }
        else { None }
    }

    pub fn tag_byte(&self) -> (r: u8)
        ensures
            r == self.spec_tag_byte(),
    {
        match self {
            RecordTag::Utf8 => 0x01,
            RecordTag::LoadClass => 0x02,
            RecordTag::UnloadClass => 0x03,
            RecordTag::StackFrame => 0x04,
            RecordTag::StackTrace => 0x05,
            RecordTag::AllocSites => 0x06,
            RecordTag::HeapSummary => 0x07,
            RecordTag::StartThread => 0x0A,
            RecordTag::EndThread => 0x0B,
            RecordTag::HeapDump => 0x0C,
            RecordTag::CpuSamples => 0x0D,
            RecordTag::ControlSettings => 0x0E,
            RecordTag::HeapDumpSegment => 0x1C,
            RecordTag::HeapDumpEnd => 0x2C,
        }
    }

    pub fn from_tag_byte(b: u8) -> (r: Option<RecordTag>)
        ensures
            r == Self::spec_from_tag_byte(b),
    {
        match b {
            0x01 => Some(RecordTag::Utf8),
            0x02 => Some(RecordTag::LoadClass),
            0x03 => Some(RecordTag::UnloadClass),
            0x04 => Some(RecordTag::StackFrame),
            0x05 => Some(RecordTag::StackTrace),
            0x06 => Some(RecordTag::AllocSites),
            0x07 => Some(RecordTag::HeapSummary),
            0x0A => Some(RecordTag::StartThread),
            0x0B => Some(RecordTag::EndThread),
            0x0C => Some(RecordTag::HeapDump),
            0x0D => Some(RecordTag::CpuSamples),
            0x0E => Some(RecordTag::ControlSettings),
            0x1C => Some(RecordTag::HeapDumpSegment),
            0x2C => Some(RecordTag::HeapDumpEnd),
            _ => None,
        }
    }
}

impl EnumIterable for RecordTag {
    fn iter() -> (r: Vec<Self>) {
        let mut r: Vec<RecordTag> = Vec::new();
        r.push(RecordTag::Utf8);
        r.push(RecordTag::LoadClass);
        r.push(RecordTag::UnloadClass);
        r.push(RecordTag::StackFrame);
        r.push(RecordTag::StackTrace);
        r.push(RecordTag::AllocSites);
        r.push(RecordTag::HeapSummary);
        r.push(RecordTag::StartThread);
        r.push(RecordTag::EndThread);
        r.push(RecordTag::HeapDump);
        r.push(RecordTag::CpuSamples);
        r.push(RecordTag::ControlSettings);
        r.push(RecordTag::HeapDumpSegment);
        r.push(RecordTag::HeapDumpEnd);
        proof {
            assert forall|v: Self| #[trigger] r@.contains(v) by {
                match v {
                    RecordTag::Utf8 => assert(r@[0] == v),
                    RecordTag::LoadClass => assert(r@[1] == v),
                    RecordTag::UnloadClass => assert(r@[2] == v),
                    RecordTag::StackFrame => assert(r@[3] == v),
                    RecordTag::StackTrace => assert(r@[4] == v),
                    RecordTag::AllocSites => assert(r@[5] == v),
                    RecordTag::HeapSummary => assert(r@[6] == v),
                    RecordTag::StartThread => assert(r@[7] == v),
                    RecordTag::EndThread => assert(r@[8] == v),
                    RecordTag::HeapDump => assert(r@[9] == v),
                    RecordTag::CpuSamples => assert(r@[10] == v),
                    RecordTag::ControlSettings => assert(r@[11] == v),
                    RecordTag::HeapDumpSegment => assert(r@[12] == v),
                    RecordTag::HeapDumpEnd => assert(r@[13] == v),
                }
            }
            assert forall|i: int, j: int| 0 <= i < r@.len() && 0 <= j < r@.len() && i != j implies r@[i] != r@[j] by {
                assert(r@ == seq![RecordTag::Utf8, RecordTag::LoadClass, RecordTag::UnloadClass, RecordTag::StackFrame, RecordTag::StackTrace, RecordTag::AllocSites, RecordTag::HeapSummary, RecordTag::StartThread, RecordTag::EndThread, RecordTag::HeapDump, RecordTag::CpuSamples, RecordTag::ControlSettings, RecordTag::HeapDumpSegment, RecordTag::HeapDumpEnd]);
            }
        }
        r
    }
}

/// One top-level record. Only the framing is read; the body is parsed on demand by the
/// `as_*` methods.
#[derive(Clone, Copy)]
pub struct Record<'a> {
    pub tag: RecordTag,
    /// Microseconds since the timestamp in the header.
    pub micros_since_header_ts: u32,
    pub id_size: IdSize,
    pub body: &'a [u8],
}

/// What a [`Record`] holds, with its body as a sequence of bytes.
pub struct RecordModel {
    pub tag: RecordTag,
    pub micros_since_header_ts: u32,
    pub id_size: IdSize,
    pub body: Seq<u8>,
}

impl<'a> View for Record<'a> {
    type V = RecordModel;

    open spec fn view(&self) -> RecordModel {
        RecordModel {
            tag: self.tag,
            micros_since_header_ts: self.micros_since_header_ts,
            id_size: self.id_size,
            body: self.body@,
        }
    }
}

/// The record that starts at `pos` of `s`, with the position just past it.
pub open spec fn spec_record(s: Seq<u8>, pos: int, id_size: IdSize) -> Result<(RecordModel, int), ParseError> {
    if !fits(s, pos, 1) {
        Err(ParseError::Truncated)
    } else {
        match RecordTag::spec_from_tag_byte(s[pos]) {
            None => Err(ParseError::UnknownRecordTag(s[pos])),
            Some(tag) => if !fits(s, pos, 9) {
                Err(ParseError::Truncated)
            } else {
                let len = be_u32_at(s, pos + 5) as int;
                if !fits(s, pos + 9, len) {
                    Err(ParseError::Truncated)
                } else {
                    Ok((RecordModel {
                        tag,
                        micros_since_header_ts: be_u32_at(s, pos + 1),
                        id_size,
                        body: s.subrange(pos + 9, pos + 9 + len),
                    }, pos + 9 + len))
                }
            },
        }
    }
}

impl<'a> Record<'a> {
    pub fn tag(&self) -> (r: RecordTag)
        ensures
            r == self.tag,
    {
        self.tag
    }

    pub fn micros_since_header_ts(&self) -> (r: u32)
        ensures
            r == self.micros_since_header_ts,
    {
        self.micros_since_header_ts
    }

    /// The body as a `Utf8` record, where the tag is [`RecordTag::Utf8`]; `None` otherwise.
    pub fn as_utf_8(&self) -> (r: Option<Result<Utf8<'a>, ParseError>>)
        ensures
            (self.tag == RecordTag::Utf8) <==> r is Some,
            r matches Some(res) ==> match res {
                Ok(u) => spec_utf8(self.body@, self.id_size) == Ok::<Utf8Model, ParseError>(u@),
                Err(err) => spec_utf8(self.body@, self.id_size) == Err::<Utf8Model, ParseError>(err),
            },
    {
        match self.tag {
            RecordTag::Utf8 => Some(Utf8::parse(self.body, self.id_size)),
            _ => None,
        }
    }

    /// The body as a `LoadClass` record, where the tag is [`RecordTag::LoadClass`]; `None` otherwise.
    pub fn as_load_class(&self) -> (r: Option<Result<LoadClass, ParseError>>)
        ensures
            (self.tag == RecordTag::LoadClass) <==> r is Some,
            r matches Some(res) ==> res == spec_load_class(self.body@, self.id_size),
    {
        match self.tag {
            RecordTag::LoadClass => Some(LoadClass::parse(self.body, self.id_size)),
            _ => None,
        }
    }

    /// The body as a `StackFrame` record, where the tag is [`RecordTag::StackFrame`]; `None` otherwise.
    pub fn as_stack_frame(&self) -> (r: Option<Result<StackFrame, ParseError>>)
        ensures
            (self.tag == RecordTag::StackFrame) <==> r is Some,
            r matches Some(res) ==> res == spec_stack_frame(self.body@, self.id_size),
    {
        match self.tag {
            RecordTag::StackFrame => Some(StackFrame::parse(self.body, self.id_size)),
            _ => None,
        }
    }

    /// The body as a `StackTrace` record, where the tag is [`RecordTag::StackTrace`]; `None` otherwise.
    pub fn as_stack_trace(&self) -> (r: Option<Result<StackTrace<'a>, ParseError>>)
        ensures
            (self.tag == RecordTag::StackTrace) <==> r is Some,
            r matches Some(res) ==> match res {
                Ok(t) => spec_stack_trace(self.body@, self.id_size) == Ok::<StackTraceModel, ParseError>(t@),
                Err(err) => spec_stack_trace(self.body@, self.id_size) == Err::<StackTraceModel, ParseError>(err),
            },
    {
        match self.tag {
            RecordTag::StackTrace => Some(StackTrace::parse(self.body, self.id_size)),
            _ => None,
        }
    }

    /// The body as heap-dump sub-records, where the tag is [`RecordTag::HeapDump`] or
    /// [`RecordTag::HeapDumpSegment`]; `None` otherwise.
    pub fn as_heap_dump_segment(&self) -> (r: Option<Result<HeapDumpSegment<'a>, ParseError>>)
        ensures
            (self.tag == RecordTag::HeapDump || self.tag == RecordTag::HeapDumpSegment) <==> r is Some,
            r matches Some(res) ==> res matches Ok(h) && h.records == self.body && h.id_size == self.id_size,
    {
        match self.tag {
            RecordTag::HeapDump | RecordTag::HeapDumpSegment => Some(HeapDumpSegment::parse(self.body, self.id_size)),
            _ => None,
        }
    }

    pub fn parse(s: &'a [u8], pos: usize, id_size: IdSize) -> (r: Result<(Record<'a>, usize), ParseError>)
        ensures
            match r {
                Ok((rec, e)) => spec_record(s@, pos as int, id_size) == Ok::<(RecordModel, int), ParseError>((rec@, e as int)),
                Err(err) => spec_record(s@, pos as int, id_size) == Err::<(RecordModel, int), ParseError>(err),
            },
    {
        let (tag_byte, p) = read_u8(s, pos)?;
        let tag = match RecordTag::from_tag_byte(tag_byte) {
            Some(t) => t,
            None => return Err(ParseError::UnknownRecordTag(tag_byte)),
        };
        let (micros, p) = read_u32(s, p)?;
        let (len, p) = read_u32(s, p)?;
        if (len as usize) > s.len() - p {
            return Err(ParseError::Truncated);
        }
        let end = p + len as usize;
        let body = &s[p..end];
        let rec = Record { tag, micros_since_header_ts: micros, id_size, body };
        proof {
            assert(rec@ == spec_record(s@, pos as int, id_size)->Ok_0.0);
        }
        Ok((rec, end))
    }
}

/// Every record takes nine bytes of framing (tag, timestamp offset, body length) besides
/// its body.
pub proof fn lemma_record_framing(s: Seq<u8>, pos: int, id_size: IdSize)
    requires
        spec_record(s, pos, id_size) is Ok,
    ensures
        spec_record(s, pos, id_size)->Ok_0.0.body.len() + 9 == spec_record(s, pos, id_size)->Ok_0.1 - pos,
{
}

/// The records of `s` from `pos` to its end, or the first error.
pub open spec fn spec_records(s: Seq<u8>, pos: int, id_size: IdSize) -> Result<Seq<RecordModel>, ParseError>
    decreases s.len() - pos,
{
    if pos < 0 || pos >= s.len() {
        Ok(Seq::empty())
    } else {
        match spec_record(s, pos, id_size) {
            Err(err) => Err(err),
            Ok((m, e)) => match spec_records(s, e, id_size) {
                Err(err) => Err(err),
                Ok(rest) => Ok(seq![m].add(rest)),
            },
        }
    }
}

/// An empty record stream is valid and holds no records.
pub proof fn lemma_empty_stream(s: Seq<u8>, id_size: IdSize)
    requires
        s.len() == 0,
    ensures
        spec_records(s, 0, id_size) == Ok::<Seq<RecordModel>, ParseError>(Seq::empty()),
{
}

/// Parsing is a function of the bytes alone: equal inputs give equal results.
pub proof fn lemma_record_parse_deterministic(s1: Seq<u8>, s2: Seq<u8>, pos: int, id_size: IdSize)
    requires
        s1 =~= s2,
    ensures
        spec_record(s1, pos, id_size) == spec_record(s2, pos, id_size),
        spec_records(s1, pos, id_size) == spec_records(s2, pos, id_size),
{
}

/// Reads the records of an hprof one after the other.
pub struct Records<'a> {
    pub data: &'a [u8],
    pub pos: usize,
    pub id_size: IdSize,
}

impl<'a> Records<'a> {
    pub open spec fn wf(&self) -> bool {
        self.pos <= self.data@.len()
    }

    /// The next record: `None` at the end of the input. An error is returned once and
    /// stops the iteration: every later call gives `None`.
    pub fn next(&mut self) -> (r: Option<Result<Record<'a>, ParseError>>)
        requires
            old(self).wf(),
        ensures
            final(self).wf(),
            final(self).data == old(self).data,
            final(self).id_size == old(self).id_size,
            old(self).pos == old(self).data@.len() ==> r is None && final(self).pos == old(self).pos,
            old(self).pos < old(self).data@.len() ==> match spec_record(old(self).data@, old(self).pos as int, old(self).id_size) {
                Ok((m, e)) => r matches Some(Ok(rec)) && rec@ == m && final(self).pos == e,
                Err(err) => r == Some(Err::<Record<'a>, ParseError>(err)) && final(self).pos == old(self).data@.len(),
            },
    {
        if self.pos == self.data.len() {
            return None;
        }
        match Record::parse(self.data, self.pos, self.id_size) {
            Ok((rec, e)) => {
                self.pos = e;
                Some(Ok(rec))
            },
            Err(err) => {
                self.pos = self.data.len();
                Some(Err(err))
            },
        }
    }
}

} // verus!
