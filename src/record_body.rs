//! The bodies of the top-level records other than heap dumps.
use vstd::prelude::*;

use crate::decode::{be_u32_at, fits, read_u32};
use crate::header::{str_from_utf8, utf8_text};
use crate::{id_at, optional_id, read_id, read_optional_id, Id, IdSize, ParseError, ParsingIterator, Serial};
use crate::ElementParser;

verus! {

/// Reads ids of the given size.
#[derive(Clone, Copy)]
pub struct IdParser {
    pub id_size: IdSize,
}

impl ElementParser for IdParser {
    type Item = Id;

    open spec fn spec_parse(&self, s: Seq<u8>, pos: int) -> Result<(Id, int), ParseError> {
        if fits(s, pos, self.id_size.bytes()) {
            Ok((Id { id: id_at(s, pos, self.id_size) }, pos + self.id_size.bytes()))
        } else {
            Err(ParseError::Truncated)
        }
    }

    fn parse(&self, s: &[u8], pos: usize) -> (r: Result<(Id, usize), ParseError>) {
        read_id(s, pos, self.id_size)
    }
}

/// Reads ids of the given size where zero means "none".
#[derive(Clone, Copy)]
pub struct NullableIdParser {
    pub id_size: IdSize,
}

impl ElementParser for NullableIdParser {
    type Item = Option<Id>;

    open spec fn spec_parse(&self, s: Seq<u8>, pos: int) -> Result<(Option<Id>, int), ParseError> {
        if fits(s, pos, self.id_size.bytes()) {
            Ok((optional_id(id_at(s, pos, self.id_size)), pos + self.id_size.bytes()))
        } else {
            Err(ParseError::Truncated)
        }
    }

    fn parse(&self, s: &[u8], pos: usize) -> (r: Result<(Option<Id>, usize), ParseError>) {
        read_optional_id(s, pos, self.id_size)
    }
}

/// Iterator over ids.
pub type Ids<'a> = ParsingIterator<'a, IdParser>;

/// Iterator over ids where zero means "none".
pub type NullableIds<'a> = ParsingIterator<'a, NullableIdParser>;

/// A `Utf8` record: an id and bytes that are meant to be UTF-8 but need not be.
#[derive(Clone, Copy)]
pub struct Utf8<'a> {
    pub name_id: Id,
    pub text: &'a [u8],
}

pub struct Utf8Model {
    pub name_id: Id,
    pub text: Seq<u8>,
}

impl<'a> View for Utf8<'a> {
    type V = Utf8Model;

    open spec fn view(&self) -> Utf8Model {
        Utf8Model { name_id: self.name_id, text: self.text@ }
    }
}

pub open spec fn spec_utf8(s: Seq<u8>, id_size: IdSize) -> Result<Utf8Model, ParseError> {
    if fits(s, 0, id_size.bytes()) {
        Ok(Utf8Model { name_id: Id { id: id_at(s, 0, id_size) }, text: s.subrange(id_size.bytes(), s.len() as int) })
    } else {
        Err(ParseError::Truncated)
    }
}

impl<'a> Utf8<'a> {
    pub fn parse(s: &'a [u8], id_size: IdSize) -> (r: Result<Utf8<'a>, ParseError>)
        ensures
            match r {
                Ok(u) => spec_utf8(s@, id_size) == Ok::<Utf8Model, ParseError>(u@),
                Err(err) => spec_utf8(s@, id_size) == Err::<Utf8Model, ParseError>(err),
            },
    {
        let (name_id, p) = read_id(s, 0, id_size)?;
        let u = Utf8 { name_id, text: &s[p..s.len()] };
        proof {
            assert(u@ == spec_utf8(s@, id_size)->Ok_0);
        }
        Ok(u)
    }

    pub fn name_id(&self) -> (r: Id)
        ensures
            r == self.name_id,
    {
        self.name_id
    }

    /// The raw bytes, valid UTF-8 or not.
    pub fn text(&self) -> (r: &'a [u8])
        ensures
            r == self.text,
    {
        self.text
    }

    /// The bytes as text. Records with invalid UTF-8 do occur; they give an error here
    /// while [`Utf8::text`] still gives their bytes.
    pub fn text_as_str(&self) -> (r: Result<&'a str, core::str::Utf8Error>)
        ensures
            match r {
                Ok(t) => utf8_text(self.text@) == Some(t@),
                Err(_) => utf8_text(self.text@) is None,
            },
    {
        str_from_utf8(self.text)
    }
}

/// A `LoadClass` record: ties a class's serial and object id to the id of its name.
#[derive(Clone, Copy, Debug, PartialEq, Eq, Structural)]
pub struct LoadClass {
    pub class_serial: Serial,
    pub class_obj_id: Id,
    pub stack_trace_serial: Serial,
    pub class_name_id: Id,
}

pub open spec fn spec_load_class(s: Seq<u8>, id_size: IdSize) -> Result<LoadClass, ParseError> {
    let w = id_size.bytes();
    if fits(s, 0, 8 + 2 * w) {
        Ok(LoadClass {
            class_serial: Serial { num: be_u32_at(s, 0) },
            class_obj_id: Id { id: id_at(s, 4, id_size) },
            stack_trace_serial: Serial { num: be_u32_at(s, 4 + w) },
            class_name_id: Id { id: id_at(s, 8 + w, id_size) },
        })
    } else {
        Err(ParseError::Truncated)
    }
}

impl LoadClass {
    pub fn parse(s: &[u8], id_size: IdSize) -> (r: Result<LoadClass, ParseError>)
        ensures
            r == spec_load_class(s@, id_size),
    {
        let (class_serial, p) = read_u32(s, 0)?;
        let (class_obj_id, p) = read_id(s, p, id_size)?;
        let (stack_trace_serial, p) = read_u32(s, p)?;
        let (class_name_id, _p) = read_id(s, p, id_size)?;
        Ok(LoadClass {
            class_serial: Serial { num: class_serial },
            class_obj_id,
            stack_trace_serial: Serial { num: stack_trace_serial },
            class_name_id,
        })
    }

    pub fn class_serial(&self) -> (r: Serial)
        ensures
            r == self.class_serial,
    {
        self.class_serial
    }

    pub fn class_obj_id(&self) -> (r: Id)
        ensures
            r == self.class_obj_id,
    {
        self.class_obj_id
    }

    pub fn stack_trace_serial(&self) -> (r: Serial)
        ensures
            r == self.stack_trace_serial,
    {
        self.stack_trace_serial
    }

    pub fn class_name_id(&self) -> (r: Id)
        ensures
            r == self.class_name_id,
    {
        self.class_name_id
    }
}

/// A line referred to by a stack frame.
#[derive(Clone, Copy, Debug, PartialEq, Eq, Structural)]
pub enum LineNum {
    /// A line of a source file.
    Normal(u32),
    Unknown,
    CompiledMethod,
    NativeMethod,
}

/// The line that the signed number `v` stands for: positive numbers are lines, and
/// -1, -2, -3 mark unknown, compiled and native methods.
pub open spec fn spec_line_num(v: i32) -> Result<LineNum, ParseError> {
    if v > 0 {
        Ok(LineNum::Normal(v as u32))
    } else if v == -1 {
        Ok(LineNum::Unknown)
    } else if v == -2 {
        Ok(LineNum::CompiledMethod)
    } else if v == -3 {
        Ok(LineNum::NativeMethod)
    } else {
        Err(ParseError::InvalidLineNum(v))
    }
}

impl LineNum {
    pub fn parse(s: &[u8], pos: usize) -> (r: Result<(LineNum, usize), ParseError>)
        ensures
            match r {
                Ok((l, e)) => fits(s@, pos as int, 4) && spec_line_num(be_u32_at(s@, pos as int) as i32)
                    == Ok::<LineNum, ParseError>(l) && e == pos + 4,
                Err(err) => !fits(s@, pos as int, 4) && err == ParseError::Truncated || fits(s@, pos as int, 4)
                    && spec_line_num(be_u32_at(s@, pos as int) as i32) == Err::<LineNum, ParseError>(err),
            },
    {
        let (u, e) = read_u32(s, pos)?;
        let v = u as i32;
        if v > 0 {
            Ok((LineNum::Normal(v as u32), e))
        } else if v == -1 {
            Ok((LineNum::Unknown, e))
        } else if v == -2 {
            Ok((LineNum::CompiledMethod, e))
        } else if v == -3 {
            Ok((LineNum::NativeMethod, e))
        } else {
            Err(ParseError::InvalidLineNum(v))
        }
    }
}

/// A `StackFrame` record.
#[derive(Clone, Copy, Debug, PartialEq, Eq, Structural)]
pub struct StackFrame {
    pub id: Id,
    pub method_name_id: Id,
    pub method_signature_id: Id,
    pub source_file_name_id: Id,
    pub class_serial: Serial,
    pub line_num: LineNum,
}

pub open spec fn spec_stack_frame(s: Seq<u8>, id_size: IdSize) -> Result<StackFrame, ParseError> {
    let w = id_size.bytes();
    if !fits(s, 0, 4 * w + 8) {
        Err(ParseError::Truncated)
    } else {
        match spec_line_num(be_u32_at(s, 4 * w + 4) as i32) {
            Err(e) => Err(e),
            Ok(line_num) => Ok(StackFrame {
                id: Id { id: id_at(s, 0, id_size) },
                method_name_id: Id { id: id_at(s, w, id_size) },
                method_signature_id: Id { id: id_at(s, 2 * w, id_size) },
                source_file_name_id: Id { id: id_at(s, 3 * w, id_size) },
                class_serial: Serial { num: be_u32_at(s, 4 * w) },
                line_num,
            }),
        }
    }
}

impl StackFrame {
    pub fn parse(s: &[u8], id_size: IdSize) -> (r: Result<StackFrame, ParseError>)
        ensures
            r == spec_stack_frame(s@, id_size),
    {
        let (id, p) = read_id(s, 0, id_size)?;
        let (method_name_id, p) = read_id(s, p, id_size)?;
        let (method_signature_id, p) = read_id(s, p, id_size)?;
        let (source_file_name_id, p) = read_id(s, p, id_size)?;
        let (class_serial, p) = read_u32(s, p)?;
        let (line_num, _p) = LineNum::parse(s, p)?;
        Ok(StackFrame {
            id,
            method_name_id,
            method_signature_id,
            source_file_name_id,
            class_serial: Serial { num: class_serial },
            line_num,
        })
    }

    pub fn id(&self) -> (r: Id)
        ensures
            r == self.id,
    {
        self.id
    }

    pub fn method_name_id(&self) -> (r: Id)
        ensures
            r == self.method_name_id,
    {
        self.method_name_id
    }

    pub fn method_signature_id(&self) -> (r: Id)
        ensures
            r == self.method_signature_id,
    {
        self.method_signature_id
    }

    pub fn source_file_name_id(&self) -> (r: Id)
        ensures
            r == self.source_file_name_id,
    {
        self.source_file_name_id
    }

    pub fn class_serial(&self) -> (r: Serial)
        ensures
            r == self.class_serial,
    {
        self.class_serial
    }

    pub fn line_num(&self) -> (r: LineNum)
        ensures
            r == self.line_num,
    {
        self.line_num
    }
}

/// A `StackTrace` record: serials and the ids of its frames, read on demand.
#[derive(Clone, Copy)]
pub struct StackTrace<'a> {
    pub id_size: IdSize,
    pub stack_trace_serial: Serial,
    pub thread_serial: Serial,
    pub num_frame_ids: u32,
    pub frame_ids: &'a [u8],
}

pub struct StackTraceModel {
    pub id_size: IdSize,
    pub stack_trace_serial: Serial,
    pub thread_serial: Serial,
    pub num_frame_ids: u32,
    pub frame_ids: Seq<u8>,
}

impl<'a> View for StackTrace<'a> {
    type V = StackTraceModel;

    open spec fn view(&self) -> StackTraceModel {
        StackTraceModel {
            id_size: self.id_size,
            stack_trace_serial: self.stack_trace_serial,
            thread_serial: self.thread_serial,
            num_frame_ids: self.num_frame_ids,
            frame_ids: self.frame_ids@,
        }
    }
}

pub open spec fn spec_stack_trace(s: Seq<u8>, id_size: IdSize) -> Result<StackTraceModel, ParseError> {
    if fits(s, 0, 12) {
        Ok(StackTraceModel {
            id_size,
            stack_trace_serial: Serial { num: be_u32_at(s, 0) },
            thread_serial: Serial { num: be_u32_at(s, 4) },
            num_frame_ids: be_u32_at(s, 8),
            frame_ids: s.subrange(12, s.len() as int),
        })
    } else {
        Err(ParseError::Truncated)
    }
}

impl<'a> StackTrace<'a> {
    pub fn parse(s: &'a [u8], id_size: IdSize) -> (r: Result<StackTrace<'a>, ParseError>)
        ensures
            match r {
                Ok(t) => spec_stack_trace(s@, id_size) == Ok::<StackTraceModel, ParseError>(t@),
                Err(err) => spec_stack_trace(s@, id_size) == Err::<StackTraceModel, ParseError>(err),
            },
    {
        let (stack_trace_serial, p) = read_u32(s, 0)?;
        let (thread_serial, p) = read_u32(s, p)?;
        let (num_frame_ids, p) = read_u32(s, p)?;
        let t = StackTrace {
            id_size,
            stack_trace_serial: Serial { num: stack_trace_serial },
            thread_serial: Serial { num: thread_serial },
            num_frame_ids,
            frame_ids: &s[p..s.len()],
        };
        proof {
            assert(t@ == spec_stack_trace(s@, id_size)->Ok_0);
        }
        Ok(t)
    }

    pub fn stack_trace_serial(&self) -> (r: Serial)
        ensures
            r == self.stack_trace_serial,
    {
        self.stack_trace_serial
    }

    pub fn thread_serial(&self) -> (r: Serial)
        ensures
            r == self.thread_serial,
    {
        self.thread_serial
    }

    /// Iterates over the ids of the frames.
    pub fn frame_ids(&self) -> (r: Ids<'a>)
        ensures
            r.wf(),
            r.parser.id_size == self.id_size,
            r.data == self.frame_ids,
            r.pos == 0,
            r.num_remaining == self.num_frame_ids,
    {
        ParsingIterator::new(IdParser { id_size: self.id_size }, self.frame_ids, self.num_frame_ids)
    }
}

/// The flags of an `AllocSites` record.
#[derive(Clone, Copy, Debug, PartialEq, Eq, Structural)]
pub struct AllocSitesFlags {
    pub bits: u16,
}

#[derive(Clone, Copy, Debug, PartialEq, Eq, Structural)]
pub enum AllocSitesFlagsMode {
    Incremental,
    Complete,
}

#[derive(Clone, Copy, Debug, PartialEq, Eq, Structural)]
pub enum AllocSitesFlagsSorting {
    Allocation,
    Live,
}

impl AllocSitesFlags {
    /// Bit 0 set: incremental; clear: complete.
    pub fn mode(&self) -> (r: AllocSitesFlagsMode)
        ensures
            r == (if self.bits & 1 != 0 { AllocSitesFlagsMode::Incremental } else { AllocSitesFlagsMode::Complete }),
    {
        if self.bits & 1 != 0 {
            AllocSitesFlagsMode::Incremental
        } else {
            AllocSitesFlagsMode::Complete
        }
    }

    /// Bit 1 set: sorted by allocation; clear: by live objects.
    pub fn sorting(&self) -> (r: AllocSitesFlagsSorting)
        ensures
            r == (if self.bits & 2 != 0 { AllocSitesFlagsSorting::Allocation } else { AllocSitesFlagsSorting::Live }),
    {
        if self.bits & 2 != 0 {
            AllocSitesFlagsSorting::Allocation
        } else {
            AllocSitesFlagsSorting::Live
        }
    }

    /// Bit 2: whether a GC was forced.
    pub fn force_gc(&self) -> (r: bool)
        ensures
            r == (self.bits & 4 != 0),
    {
        self.bits & 4 != 0
    }
}

/// Whether an allocation site holds objects or arrays, and of what.
#[derive(Clone, Copy, Debug, PartialEq, Eq, Structural)]
pub enum ObjOrArrayType {
    Object,
    ObjectArray,
    BooleanArray,
    CharArray,
    FloatArray,
    DoubleArray,
    ByteArray,
    ShortArray,
    IntArray,
    LongArray,
}

impl ObjOrArrayType {
    pub open spec fn spec_from_num(num: u8) -> Option<ObjOrArrayType> {
        if num == 0 { Some(ObjOrArrayType::Object) }
        else if num == 2 { Some(ObjOrArrayType::ObjectArray) }
        else if num == 4 { Some(ObjOrArrayType::BooleanArray) }
        else if num == 5 { Some(ObjOrArrayType::CharArray) }
        else if num == 6 { Some(ObjOrArrayType::FloatArray) }
        else if num == 7 { Some(ObjOrArrayType::DoubleArray) }
        else if num == 8 { Some(ObjOrArrayType::ByteArray) }
        else if num == 9 { Some(ObjOrArrayType::ShortArray) }
        else if num == 10 { Some(ObjOrArrayType::IntArray) }
        else if num == 11 { Some(ObjOrArrayType::LongArray) }
        else { None }
    }

    /// The kind with the given number, `None` for a number that names none.
    pub fn from_num(num: u8) -> (r: Option<ObjOrArrayType>)
        ensures
            r == Self::spec_from_num(num),
    {
        match num {
            0 => Some(ObjOrArrayType::Object),
            2 => Some(ObjOrArrayType::ObjectArray),
            4 => Some(ObjOrArrayType::BooleanArray),
            5 => Some(ObjOrArrayType::CharArray),
            6 => Some(ObjOrArrayType::FloatArray),
            7 => Some(ObjOrArrayType::DoubleArray),
            8 => Some(ObjOrArrayType::ByteArray),
            9 => Some(ObjOrArrayType::ShortArray),
            10 => Some(ObjOrArrayType::IntArray),
            11 => Some(ObjOrArrayType::LongArray),
            _ => None,
        }
    }
}

} // verus!
