//! Parsing and analysis of JVM heap-profile (hprof) files.
//!
//! [`parse_hprof`] reads the header; [`Hprof::records_iter`] then walks the top-level
//! records, whose bodies are parsed on demand, and [`heap_dump`] reads the sub-records of
//! heap dumps. Every parse is a view over the input bytes and is specified by a spec
//! function from those bytes to the parsed value or error.
//!
//! The analysis modules hold the logic of building and using an object index and a
//! reference-count graph: [`class_view`] (descriptor chains and field decoding),
//! [`chunk`] and [`merge`] (sorted chunks and their merge), [`index`] (fingerprint and
//! stored values), [`graph`] (edges and their counts) and [`instance_counts`].
use vstd::prelude::*;

pub mod chunk;
pub mod class_view;
pub mod decode;
pub mod graph;
pub mod heap_dump;
pub mod index;
pub mod instance_counts;
pub mod merge;
mod header;
mod parsing_iterator;
mod record;
mod record_body;

use decode::{fits, read_u32, read_u64};
pub use header::{first_nul, parse_hprof, spec_header, utf8_text, Header, HeaderModel, Hprof};
pub use parsing_iterator::{skip_items, spec_collect, spec_items, spec_skip, ElementParser, ParsingIterator};
pub use record_body::{
    spec_line_num, spec_load_class, spec_stack_frame, spec_stack_trace, spec_utf8, AllocSitesFlags,
    AllocSitesFlagsMode, AllocSitesFlagsSorting, IdParser, Ids, LineNum, LoadClass, NullableIdParser, NullableIds,
    ObjOrArrayType, StackFrame, StackTrace, StackTraceModel, Utf8, Utf8Model,
};
pub use record::{
    lemma_empty_stream, lemma_record_framing, lemma_record_parse_deterministic, spec_record, spec_records, Record,
    RecordModel, RecordTag, Records,
};

verus! {

/// Why a piece of an hprof file could not be parsed.
#[derive(Clone, Copy, Debug, PartialEq, Eq, Structural)]
pub enum ParseError {
    /// The input ended before the item did.
    Truncated,
    /// The header declares an id size other than 4 or 8.
    InvalidIdSize(u32),
    /// A top-level record starts with a tag byte that no record kind has.
    UnknownRecordTag(u8),
    /// A heap-dump sub-record starts with a tag byte that no sub-record kind has.
    UnknownSubRecordTag(u8),
    /// A field's type byte names no field type.
    UnknownFieldType(u8),
    /// A primitive array's type byte names no primitive type.
    UnknownPrimitiveType(u8),
    /// A class declares a constant pool, which is always empty in practice.
    NonZeroConstantPool(u16),
    /// A stack frame's line number is neither positive nor one of the three markers.
    InvalidLineNum(i32),
    /// Bytes remain after the declared number of items was read.
    TrailingBytes,
}


/// Identifies objects, classes, UTF-8 blobs and the like. Stored on disk in 4 or 8 bytes
/// (see [`IdSize`]), always held as 64 bits.
#[derive(Clone, Copy, Debug, PartialEq, Eq, Hash, Structural)]
pub struct Id {
    pub id: u64,
}

impl Id {
    pub fn id(&self) -> (r: u64)
        ensures
            r == self.id,
    {
        self.id
    }
}

impl From<u64> for Id {
    fn from(id: u64) -> (r: Id)
        ensures
            r.id == id,
    {
        Id { id }
    }
}

impl vstd::std_specs::convert::FromSpecImpl<u64> for Id {
    open spec fn obeys_from_spec() -> bool {
        true
    }

    open spec fn from_spec(v: u64) -> Id {
        Id { id: v }
    }
}

/// A running 32-bit number used beside [`Id`] to name stack traces, threads and classes.
#[derive(Clone, Copy, Debug, PartialEq, Eq, Hash, Structural)]
pub struct Serial {
    pub num: u32,
}

impl Serial {
    pub fn num(&self) -> (r: u32)
        ensures
            r == self.num,
    {
        self.num
    }
}

impl From<u32> for Serial {
    fn from(num: u32) -> (r: Serial)
        ensures
            r.num == num,
    {
        Serial { num }
    }
}

impl vstd::std_specs::convert::FromSpecImpl<u32> for Serial {
    open spec fn obeys_from_spec() -> bool {
        true
    }

    open spec fn from_spec(v: u32) -> Serial {
        Serial { num: v }
    }
}

/// How many bytes an id takes in the file: declared once, in the header.
#[derive(Clone, Copy, Debug, PartialEq, Eq, Structural)]
pub enum IdSize {
    U32,
    U64,
}

impl IdSize {
    pub open spec fn bytes(self) -> int {
        match self {
            IdSize::U32 => 4,
            IdSize::U64 => 8,
        }
    }

    pub fn size_in_bytes(&self) -> (r: usize)
        ensures
            r == self.bytes(),
    {
        match self {
            IdSize::U32 => 4,
            IdSize::U64 => 8,
        }
    }
}

/// The id stored at position `i` of `s`, widened to 64 bits.
pub open spec fn id_at(s: Seq<u8>, i: int, id_size: IdSize) -> u64 {
    match id_size {
        IdSize::U32 => decode::be_u32_at(s, i) as u64,
        IdSize::U64 => decode::be_u64_at(s, i),
    }
}

/// An id of zero stands for "none".
pub open spec fn optional_id(v: u64) -> Option<Id> {
    if v == 0 {
        None
    } else {
        Some(Id { id: v })
    }
}

/// A frame index of `u32::MAX` stands for "none".
pub open spec fn optional_frame_index(v: u32) -> Option<u32> {
    if v == u32::MAX {
        None
    } else {
        Some(v)
    }
}

pub fn read_id(s: &[u8], pos: usize, id_size: IdSize) -> (r: Result<(Id, usize), ParseError>)
    ensures
        match r {
            Ok((v, e)) => fits(s@, pos as int, id_size.bytes()) && v.id == id_at(s@, pos as int, id_size)
                && e == pos + id_size.bytes(),
            Err(err) => !fits(s@, pos as int, id_size.bytes()) && err == ParseError::Truncated,
        },
{
    match id_size {
        IdSize::U32 => {
            let (v, e) = read_u32(s, pos)?;
            Ok((Id { id: v as u64 }, e))
        },
        IdSize::U64 => {
            let (v, e) = read_u64(s, pos)?;
            Ok((Id { id: v }, e))
        },
    }
}

/// Reads an id where zero means that there is none.
pub fn read_optional_id(s: &[u8], pos: usize, id_size: IdSize) -> (r: Result<(Option<Id>, usize), ParseError>)
    ensures
        match r {
            Ok((v, e)) => fits(s@, pos as int, id_size.bytes()) && v == optional_id(id_at(s@, pos as int, id_size))
                && e == pos + id_size.bytes(),
            Err(err) => !fits(s@, pos as int, id_size.bytes()) && err == ParseError::Truncated,
        },
{
    let (id, e) = read_id(s, pos, id_size)?;
    if id.id == 0 {
        Ok((None, e))
    } else {
        Ok((Some(id), e))
    }
}

/// Reads a `u32` frame index where `u32::MAX` means that there is none.
pub fn read_optional_frame_index(s: &[u8], pos: usize) -> (r: Result<(Option<u32>, usize), ParseError>)
    ensures
        match r {
            Ok((v, e)) => fits(s@, pos as int, 4) && v == optional_frame_index(decode::be_u32_at(s@, pos as int))
                && e == pos + 4,
            Err(err) => !fits(s@, pos as int, 4) && err == ParseError::Truncated,
        },
{
    let (v, e) = read_u32(s, pos)?;
    if v == u32::MAX {
        Ok((None, e))
    } else {
        Ok((Some(v), e))
    }
}

/// Lists every variant of an enum that has no data.
pub trait EnumIterable: Sized {
    /// Every variant, once each.
    fn iter() -> (r: Vec<Self>)
        ensures
            r@.no_duplicates(),
            forall|v: Self| #[trigger] r@.contains(v),
    ;
}

} // verus!
