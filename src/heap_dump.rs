//! Sub-records of heap dumps: GC roots, classes, instances and arrays.
use vstd::prelude::*;

use crate::decode::{be_u16_at, be_u32_at, be_u64_at, fits, read_u16, read_u32, read_u64, read_u8};
use crate::parsing_iterator::{spec_skip, skip_items};
use crate::{
    id_at, optional_frame_index, optional_id, read_id, read_optional_frame_index, read_optional_id, ElementParser, Id,
    IdSize, NullableIdParser, NullableIds, ParseError, ParsingIterator, Serial,
};

mod primitive_array;

pub use primitive_array::{
    spec_primitive_array, BoolParser, Booleans, ByteParser, Bytes, CharParser, Chars, DoubleBitsParser, Doubles,
    FloatBitsParser, Floats, IntParser, Ints, LongParser, Longs, PrimitiveArray, PrimitiveArrayModel,
    PrimitiveArrayType, ShortParser, Shorts,
};

verus! {

/// The type of a field.
#[derive(Clone, Copy, Debug, PartialEq, Eq, Hash, Structural)]
pub enum FieldType {
    ObjectId,
    Boolean,
    Char,
    Float,
    Double,
    Byte,
    Short,
    Int,
    Long,
}

impl FieldType {
    /// The field type whose type byte is `b`, if any.
    pub open spec fn spec_from_byte(b: u8) -> Option<FieldType> {
        if b == 0x02 { Some(FieldType::ObjectId) }
        else if b == 0x04 { Some(FieldType::Boolean) }
        else if b == 0x05 { Some(FieldType::Char) }
        else if b == 0x06 { Some(FieldType::Float) }
        else if b == 0x07 { Some(FieldType::Double) }
        else if b == 0x08 { Some(FieldType::Byte) }
        else if b == 0x09 { Some(FieldType::Short) }
        else if b == 0x0A { Some(FieldType::Int) }
        else if b == 0x0B { Some(FieldType::Long) }
        else { None }
    }

    /// How many bytes a value of this type takes.
    pub open spec fn width(self, id_size: IdSize) -> int {
        match self {
            FieldType::ObjectId => id_size.bytes(),
            FieldType::Boolean => 1,
            FieldType::Char => 2,
            FieldType::Float => 4,
            FieldType::Double => 8,
            FieldType::Byte => 1,
            FieldType::Short => 2,
            FieldType::Int => 4,
            FieldType::Long => 8,
        }
    }

    /// The value of this type stored at `pos` of `s`.
    pub open spec fn value_at(self, s: Seq<u8>, pos: int, id_size: IdSize) -> FieldValue {
        match self {
            FieldType::ObjectId => FieldValue::ObjectId(optional_id(id_at(s, pos, id_size))),
            FieldType::Boolean => FieldValue::Boolean(s[pos] != 0),
            FieldType::Char => FieldValue::Char(be_u16_at(s, pos)),
            FieldType::Float => FieldValue::Float(be_u32_at(s, pos)),
            FieldType::Double => FieldValue::Double(be_u64_at(s, pos)),
            FieldType::Byte => FieldValue::Byte(s[pos] as i8),
            FieldType::Short => FieldValue::Short(be_u16_at(s, pos) as i16),
            FieldType::Int => FieldValue::Int(be_u32_at(s, pos) as i32),
            FieldType::Long => FieldValue::Long(be_u64_at(s, pos) as i64),
        }
    }

    /// The value of this type at `pos` of `s`, with the position just past it.
    pub open spec fn spec_value(self, s: Seq<u8>, pos: int, id_size: IdSize) -> Result<(FieldValue, int), ParseError> {
        if fits(s, pos, self.width(id_size)) {
            Ok((self.value_at(s, pos, id_size), pos + self.width(id_size)))
        } else {
            Err(ParseError::Truncated)
        }
    }

    pub fn from_byte(b: u8) -> (r: Option<FieldType>)
        ensures
            r == Self::spec_from_byte(b),
    {
        match b {
            0x02 => Some(FieldType::ObjectId),
            0x04 => Some(FieldType::Boolean),
            0x05 => Some(FieldType::Char),
            0x06 => Some(FieldType::Float),
            0x07 => Some(FieldType::Double),
            0x08 => Some(FieldType::Byte),
            0x09 => Some(FieldType::Short),
            0x0A => Some(FieldType::Int),
            0x0B => Some(FieldType::Long),
            _ => None,
        }
    }

    /// Reads a type byte at `pos`.
    pub fn parse(s: &[u8], pos: usize) -> (r: Result<(FieldType, usize), ParseError>)
        ensures
            match r {
                Ok((t, e)) => fits(s@, pos as int, 1) && Self::spec_from_byte(s@[pos as int]) == Some(t) && e == pos + 1,
                Err(err) => !fits(s@, pos as int, 1) && err == ParseError::Truncated || fits(s@, pos as int, 1)
                    && Self::spec_from_byte(s@[pos as int]) is None && err == ParseError::UnknownFieldType(s@[pos as int]),
            },
    {
        let (b, e) = read_u8(s, pos)?;
        match FieldType::from_byte(b) {
            Some(t) => Ok((t, e)),
            None => Err(ParseError::UnknownFieldType(b)),
        }
    }

    /// Reads a value of this type at `pos` of `s`.
    pub fn parse_value_at(&self, s: &[u8], pos: usize, id_size: IdSize) -> (r: Result<(FieldValue, usize), ParseError>)
        ensures
            match r {
                Ok((v, e)) => self.spec_value(s@, pos as int, id_size) == Ok::<(FieldValue, int), ParseError>((v, e as int)),
                Err(err) => self.spec_value(s@, pos as int, id_size) == Err::<(FieldValue, int), ParseError>(err),
            },
    {
        match self {
            FieldType::ObjectId => {
                let (v, e) = read_optional_id(s, pos, id_size)?;
                Ok((FieldValue::ObjectId(v), e))
            },
            FieldType::Boolean => {
                let (v, e) = read_u8(s, pos)?;
                Ok((FieldValue::Boolean(v != 0), e))
            },
            FieldType::Char => {
                let (v, e) = read_u16(s, pos)?;
                Ok((FieldValue::Char(v), e))
            },
            FieldType::Float => {
                let (v, e) = read_u32(s, pos)?;
                Ok((FieldValue::Float(v), e))
            },
            FieldType::Double => {
                let (v, e) = read_u64(s, pos)?;
                Ok((FieldValue::Double(v), e))
            },
            FieldType::Byte => {
                let (v, e) = read_u8(s, pos)?;
                Ok((FieldValue::Byte(v as i8), e))
            },
            FieldType::Short => {
                let (v, e) = read_u16(s, pos)?;
                Ok((FieldValue::Short(v as i16), e))
            },
            FieldType::Int => {
                let (v, e) = read_u32(s, pos)?;
                Ok((FieldValue::Int(v as i32), e))
            },
            FieldType::Long => {
                let (v, e) = read_u64(s, pos)?;
                Ok((FieldValue::Long(v as i64), e))
            },
        }
    }

    /// Reads a value of this type from the start of `input`, with the bytes after it.
    pub fn parse_value<'a>(&self, input: &'a [u8], id_size: IdSize) -> (r: Result<(FieldValue, &'a [u8]), ParseError>)
        ensures
            match r {
                Ok((v, rest)) => self.spec_value(input@, 0, id_size) matches Ok((w, e)) && w == v
                    && rest@ == input@.subrange(e, input@.len() as int),
                Err(err) => self.spec_value(input@, 0, id_size) == Err::<(FieldValue, int), ParseError>(err),
            },
    {
        let (v, e) = self.parse_value_at(input, 0, id_size)?;
        Ok((v, &input[e..input.len()]))
    }

    pub open spec fn spec_java_type_name(self) -> &'static str {
        match self {
            FieldType::ObjectId => "Object",
            FieldType::Boolean => "boolean",
            FieldType::Char => "char",
            FieldType::Float => "float",
            FieldType::Double => "double",
            FieldType::Byte => "byte",
            FieldType::Short => "short",
            FieldType::Int => "int",
            FieldType::Long => "long",
        }
    }

    /// The Java name of the type.
    pub fn java_type_name(&self) -> (r: &'static str)
        ensures
            r == self.spec_java_type_name(),
    {
        match self {
            FieldType::ObjectId => "Object",
            FieldType::Boolean => "boolean",
            FieldType::Char => "char",
            FieldType::Float => "float",
            FieldType::Double => "double",
            FieldType::Byte => "byte",
            FieldType::Short => "short",
            FieldType::Int => "int",
            FieldType::Long => "long",
        }
    }
}

/// A field's value. Floating-point values are held as their IEEE-754 bits
/// (`f32::from_bits`, `f64::from_bits` give the numbers).
#[derive(Clone, Copy, Debug, PartialEq, Eq, Structural)]
pub enum FieldValue {
    ObjectId(Option<Id>),
    Boolean(bool),
    Char(u16),
    Float(u32),
    Double(u64),
    Byte(i8),
    Short(i16),
    Int(i32),
    Long(i64),
}

/// A field's name and type, as a class declares it.
#[derive(Clone, Copy, Debug, PartialEq, Eq, Structural)]
pub struct FieldDescriptor {
    pub name_id: Id,
    pub field_type: FieldType,
}

impl FieldDescriptor {
    pub fn name_id(&self) -> (r: Id)
        ensures
            r == self.name_id,
    {
        self.name_id
    }

    pub fn field_type(&self) -> (r: FieldType)
        ensures
            r == self.field_type,
    {
        self.field_type
    }
}

/// A static field's name and value.
#[derive(Clone, Copy, Debug, PartialEq, Eq, Structural)]
pub struct StaticFieldEntry {
    pub name_id: Id,
    pub value: FieldValue,
}

impl StaticFieldEntry {
    pub fn name_id(&self) -> (r: Id)
        ensures
            r == self.name_id,
    {
        self.name_id
    }

    pub fn value(&self) -> (r: FieldValue)
        ensures
            r == self.value,
    {
        self.value
    }
}

/// Reads field descriptors: a name id and a type byte.
#[derive(Clone, Copy)]
pub struct FieldDescriptorParser {
    pub id_size: IdSize,
}

impl ElementParser for FieldDescriptorParser {
    type Item = FieldDescriptor;

    open spec fn spec_parse(&self, s: Seq<u8>, pos: int) -> Result<(FieldDescriptor, int), ParseError> {
        let w = self.id_size.bytes();
        if !fits(s, pos, w + 1) {
            Err(ParseError::Truncated)
        } else {
            match FieldType::spec_from_byte(s[pos + w]) {
                None => Err(ParseError::UnknownFieldType(s[pos + w])),
                Some(t) => Ok((FieldDescriptor { name_id: Id { id: id_at(s, pos, self.id_size) }, field_type: t }, pos + w + 1)),
            }
        }
    }

    fn parse(&self, s: &[u8], pos: usize) -> (r: Result<(FieldDescriptor, usize), ParseError>) {
        let (name_id, p) = read_id(s, pos, self.id_size)?;
        let (field_type, e) = FieldType::parse(s, p)?;
        Ok((FieldDescriptor { name_id, field_type }, e))
    }
}

/// Reads static field entries: a name id, a type byte and a value of that type.
#[derive(Clone, Copy)]
pub struct StaticFieldEntryParser {
    pub id_size: IdSize,
}

impl ElementParser for StaticFieldEntryParser {
    type Item = StaticFieldEntry;

    open spec fn spec_parse(&self, s: Seq<u8>, pos: int) -> Result<(StaticFieldEntry, int), ParseError> {
        let w = self.id_size.bytes();
        if !fits(s, pos, w + 1) {
            Err(ParseError::Truncated)
        } else {
            match FieldType::spec_from_byte(s[pos + w]) {
                None => Err(ParseError::UnknownFieldType(s[pos + w])),
                Some(t) => match t.spec_value(s, pos + w + 1, self.id_size) {
                    Err(err) => Err(err),
                    Ok((v, e)) => Ok((StaticFieldEntry { name_id: Id { id: id_at(s, pos, self.id_size) }, value: v }, e)),
                },
            }
        }
    }

    fn parse(&self, s: &[u8], pos: usize) -> (r: Result<(StaticFieldEntry, usize), ParseError>) {
        let (name_id, p) = read_id(s, pos, self.id_size)?;
        let (field_type, p) = FieldType::parse(s, p)?;
        let (value, e) = field_type.parse_value_at(s, p, self.id_size)?;
        Ok((StaticFieldEntry { name_id, value }, e))
    }
}

/// Iterator over a class's static fields.
pub type StaticFieldEntries<'a> = ParsingIterator<'a, StaticFieldEntryParser>;

/// Iterator over field descriptors.
pub type FieldDescriptors<'a> = ParsingIterator<'a, FieldDescriptorParser>;

#[derive(Clone, Copy, Debug, PartialEq, Eq, Structural)]
pub struct GcRootUnknown {
    pub obj_id: Id,
}

pub open spec fn spec_gc_root_unknown(s: Seq<u8>, pos: int, id_size: IdSize) -> Result<(GcRootUnknown, int), ParseError> {
    let w = id_size.bytes();
    if fits(s, pos, w) {
        Ok((GcRootUnknown {
            obj_id: Id { id: id_at(s, pos, id_size) },
        }, pos + w))
    } else {
        Err(ParseError::Truncated)
    }
}

impl GcRootUnknown {
    pub fn parse(s: &[u8], pos: usize, id_size: IdSize) -> (r: Result<(GcRootUnknown, usize), ParseError>)
        ensures
            match r {
                Ok((v, e)) => spec_gc_root_unknown(s@, pos as int, id_size) == Ok::<(GcRootUnknown, int), ParseError>((v, e as int)),
                Err(err) => spec_gc_root_unknown(s@, pos as int, id_size) == Err::<(GcRootUnknown, int), ParseError>(err),
            },
    {
        let p = pos;
        let (obj_id, p) = read_id(s, p, id_size)?;
        Ok((GcRootUnknown {
            obj_id,
        }, p))
    }

    pub fn obj_id(&self) -> (r: Id)
        ensures
            r == self.obj_id,
    {
        self.obj_id
    }
}

#[derive(Clone, Copy, Debug, PartialEq, Eq, Structural)]
pub struct GcRootThreadObj {
    /// Missing for a thread newly attached through JNI.
    pub thread_obj_id: Option<Id>,
    pub thread_serial: Serial,
    pub stack_trace_serial: Serial,
}

pub open spec fn spec_gc_root_thread_obj(s: Seq<u8>, pos: int, id_size: IdSize) -> Result<(GcRootThreadObj, int), ParseError> {
    let w = id_size.bytes();
    if fits(s, pos, w + 4 + 4) {
        Ok((GcRootThreadObj {
            thread_obj_id: optional_id(id_at(s, pos, id_size)),
            thread_serial: Serial { num: be_u32_at(s, pos + w) },
            stack_trace_serial: Serial { num: be_u32_at(s, pos + w + 4) },
        }, pos + w + 4 + 4))
    } else {
        Err(ParseError::Truncated)
    }
}

impl GcRootThreadObj {
    pub fn parse(s: &[u8], pos: usize, id_size: IdSize) -> (r: Result<(GcRootThreadObj, usize), ParseError>)
        ensures
            match r {
                Ok((v, e)) => spec_gc_root_thread_obj(s@, pos as int, id_size) == Ok::<(GcRootThreadObj, int), ParseError>((v, e as int)),
                Err(err) => spec_gc_root_thread_obj(s@, pos as int, id_size) == Err::<(GcRootThreadObj, int), ParseError>(err),
            },
    {
        let p = pos;
        let (thread_obj_id, p) = read_optional_id(s, p, id_size)?;
        let (thread_serial, p) = read_u32(s, p)?;
        let (stack_trace_serial, p) = read_u32(s, p)?;
        Ok((GcRootThreadObj {
            thread_obj_id,
            thread_serial: Serial { num: thread_serial },
            stack_trace_serial: Serial { num: stack_trace_serial },
        }, p))
    }

    pub fn thread_obj_id(&self) -> (r: Option<Id>)
        ensures
            r == self.thread_obj_id,
    {
        self.thread_obj_id
    }

    pub fn thread_serial(&self) -> (r: Serial)
        ensures
            r == self.thread_serial,
    {
        self.thread_serial
    }

    pub fn stack_trace_serial(&self) -> (r: Serial)
        ensures
            r == self.stack_trace_serial,
    {
        self.stack_trace_serial
    }
}

#[derive(Clone, Copy, Debug, PartialEq, Eq, Structural)]
pub struct GcRootJniGlobal {
    pub obj_id: Id,
    pub jni_global_ref_id: Id,
}

pub open spec fn spec_gc_root_jni_global(s: Seq<u8>, pos: int, id_size: IdSize) -> Result<(GcRootJniGlobal, int), ParseError> {
    let w = id_size.bytes();
    if fits(s, pos, w + w) {
        Ok((GcRootJniGlobal {
            obj_id: Id { id: id_at(s, pos, id_size) },
            jni_global_ref_id: Id { id: id_at(s, pos + w, id_size) },
        }, pos + w + w))
    } else {
        Err(ParseError::Truncated)
    }
}

impl GcRootJniGlobal {
    pub fn parse(s: &[u8], pos: usize, id_size: IdSize) -> (r: Result<(GcRootJniGlobal, usize), ParseError>)
        ensures
            match r {
                Ok((v, e)) => spec_gc_root_jni_global(s@, pos as int, id_size) == Ok::<(GcRootJniGlobal, int), ParseError>((v, e as int)),
                Err(err) => spec_gc_root_jni_global(s@, pos as int, id_size) == Err::<(GcRootJniGlobal, int), ParseError>(err),
            },
    {
        let p = pos;
        let (obj_id, p) = read_id(s, p, id_size)?;
        let (jni_global_ref_id, p) = read_id(s, p, id_size)?;
        Ok((GcRootJniGlobal {
            obj_id,
            jni_global_ref_id,
        }, p))
    }

    pub fn obj_id(&self) -> (r: Id)
        ensures
            r == self.obj_id,
    {
        self.obj_id
    }

    pub fn jni_global_ref_id(&self) -> (r: Id)
        ensures
            r == self.jni_global_ref_id,
    {
        self.jni_global_ref_id
    }
}

#[derive(Clone, Copy, Debug, PartialEq, Eq, Structural)]
pub struct GcRootJniLocalRef {
    pub obj_id: Id,
    pub thread_serial: Serial,
    pub frame_index: Option<u32>,
}

pub open spec fn spec_gc_root_jni_local_ref(s: Seq<u8>, pos: int, id_size: IdSize) -> Result<(GcRootJniLocalRef, int), ParseError> {
    let w = id_size.bytes();
    if fits(s, pos, w + 4 + 4) {
        Ok((GcRootJniLocalRef {
            obj_id: Id { id: id_at(s, pos, id_size) },
            thread_serial: Serial { num: be_u32_at(s, pos + w) },
            frame_index: optional_frame_index(be_u32_at(s, pos + w + 4)),
        }, pos + w + 4 + 4))
    } else {
        Err(ParseError::Truncated)
    }
}

impl GcRootJniLocalRef {
    pub fn parse(s: &[u8], pos: usize, id_size: IdSize) -> (r: Result<(GcRootJniLocalRef, usize), ParseError>)
        ensures
            match r {
                Ok((v, e)) => spec_gc_root_jni_local_ref(s@, pos as int, id_size) == Ok::<(GcRootJniLocalRef, int), ParseError>((v, e as int)),
                Err(err) => spec_gc_root_jni_local_ref(s@, pos as int, id_size) == Err::<(GcRootJniLocalRef, int), ParseError>(err),
            },
    {
        let p = pos;
        let (obj_id, p) = read_id(s, p, id_size)?;
        let (thread_serial, p) = read_u32(s, p)?;
        let (frame_index, p) = read_optional_frame_index(s, p)?;
        Ok((GcRootJniLocalRef {
            obj_id,
            thread_serial: Serial { num: thread_serial },
            frame_index,
        }, p))
    }

    pub fn obj_id(&self) -> (r: Id)
        ensures
            r == self.obj_id,
    {
        self.obj_id
    }

    pub fn thread_serial(&self) -> (r: Serial)
        ensures
            r == self.thread_serial,
    {
        self.thread_serial
    }

    pub fn frame_index(&self) -> (r: Option<u32>)
        ensures
            r == self.frame_index,
    {
        self.frame_index
    }
}

#[derive(Clone, Copy, Debug, PartialEq, Eq, Structural)]
pub struct GcRootJavaStackFrame {
    pub obj_id: Id,
    pub thread_serial: Serial,
    pub frame_index: Option<u32>,
}

pub open spec fn spec_gc_root_java_stack_frame(s: Seq<u8>, pos: int, id_size: IdSize) -> Result<(GcRootJavaStackFrame, int), ParseError> {
    let w = id_size.bytes();
    if fits(s, pos, w + 4 + 4) {
        Ok((GcRootJavaStackFrame {
            obj_id: Id { id: id_at(s, pos, id_size) },
            thread_serial: Serial { num: be_u32_at(s, pos + w) },
            frame_index: optional_frame_index(be_u32_at(s, pos + w + 4)),
        }, pos + w + 4 + 4))
    } else {
        Err(ParseError::Truncated)
    }
}

impl GcRootJavaStackFrame {
    pub fn parse(s: &[u8], pos: usize, id_size: IdSize) -> (r: Result<(GcRootJavaStackFrame, usize), ParseError>)
        ensures
            match r {
                Ok((v, e)) => spec_gc_root_java_stack_frame(s@, pos as int, id_size) == Ok::<(GcRootJavaStackFrame, int), ParseError>((v, e as int)),
                Err(err) => spec_gc_root_java_stack_frame(s@, pos as int, id_size) == Err::<(GcRootJavaStackFrame, int), ParseError>(err),
            },
    {
        let p = pos;
        let (obj_id, p) = read_id(s, p, id_size)?;
        let (thread_serial, p) = read_u32(s, p)?;
        let (frame_index, p) = read_optional_frame_index(s, p)?;
        Ok((GcRootJavaStackFrame {
            obj_id,
            thread_serial: Serial { num: thread_serial },
            frame_index,
        }, p))
    }

    pub fn obj_id(&self) -> (r: Id)
        ensures
            r == self.obj_id,
    {
        self.obj_id
    }

    pub fn thread_serial(&self) -> (r: Serial)
        ensures
            r == self.thread_serial,
    {
        self.thread_serial
    }

    pub fn frame_index(&self) -> (r: Option<u32>)
        ensures
            r == self.frame_index,
    {
        self.frame_index
    }
}

#[derive(Clone, Copy, Debug, PartialEq, Eq, Structural)]
pub struct GcRootNativeStack {
    pub obj_id: Id,
    pub thread_serial: Serial,
}

pub open spec fn spec_gc_root_native_stack(s: Seq<u8>, pos: int, id_size: IdSize) -> Result<(GcRootNativeStack, int), ParseError> {
    let w = id_size.bytes();
    if fits(s, pos, w + 4) {
        Ok((GcRootNativeStack {
            obj_id: Id { id: id_at(s, pos, id_size) },
            thread_serial: Serial { num: be_u32_at(s, pos + w) },
        }, pos + w + 4))
    } else {
        Err(ParseError::Truncated)
    }
}

impl GcRootNativeStack {
    pub fn parse(s: &[u8], pos: usize, id_size: IdSize) -> (r: Result<(GcRootNativeStack, usize), ParseError>)
        ensures
            match r {
                Ok((v, e)) => spec_gc_root_native_stack(s@, pos as int, id_size) == Ok::<(GcRootNativeStack, int), ParseError>((v, e as int)),
                Err(err) => spec_gc_root_native_stack(s@, pos as int, id_size) == Err::<(GcRootNativeStack, int), ParseError>(err),
            },
    {
        let p = pos;
        let (obj_id, p) = read_id(s, p, id_size)?;
        let (thread_serial, p) = read_u32(s, p)?;
        Ok((GcRootNativeStack {
            obj_id,
            thread_serial: Serial { num: thread_serial },
        }, p))
    }

    pub fn obj_id(&self) -> (r: Id)
        ensures
            r == self.obj_id,
    {
        self.obj_id
    }

    pub fn thread_serial(&self) -> (r: Serial)
        ensures
            r == self.thread_serial,
    {
        self.thread_serial
    }
}

#[derive(Clone, Copy, Debug, PartialEq, Eq, Structural)]
pub struct GcRootSystemClass {
    pub obj_id: Id,
}

pub open spec fn spec_gc_root_system_class(s: Seq<u8>, pos: int, id_size: IdSize) -> Result<(GcRootSystemClass, int), ParseError> {
    let w = id_size.bytes();
    if fits(s, pos, w) {
        Ok((GcRootSystemClass {
            obj_id: Id { id: id_at(s, pos, id_size) },
        }, pos + w))
    } else {
        Err(ParseError::Truncated)
    }
}

impl GcRootSystemClass {
    pub fn parse(s: &[u8], pos: usize, id_size: IdSize) -> (r: Result<(GcRootSystemClass, usize), ParseError>)
        ensures
            match r {
                Ok((v, e)) => spec_gc_root_system_class(s@, pos as int, id_size) == Ok::<(GcRootSystemClass, int), ParseError>((v, e as int)),
                Err(err) => spec_gc_root_system_class(s@, pos as int, id_size) == Err::<(GcRootSystemClass, int), ParseError>(err),
            },
    {
        let p = pos;
        let (obj_id, p) = read_id(s, p, id_size)?;
        Ok((GcRootSystemClass {
            obj_id,
        }, p))
    }

    pub fn obj_id(&self) -> (r: Id)
        ensures
            r == self.obj_id,
    {
        self.obj_id
    }
}

#[derive(Clone, Copy, Debug, PartialEq, Eq, Structural)]
pub struct GcRootThreadBlock {
    pub obj_id: Id,
    pub thread_serial: Serial,
}

pub open spec fn spec_gc_root_thread_block(s: Seq<u8>, pos: int, id_size: IdSize) -> Result<(GcRootThreadBlock, int), ParseError> {
    let w = id_size.bytes();
    if fits(s, pos, w + 4) {
        Ok((GcRootThreadBlock {
            obj_id: Id { id: id_at(s, pos, id_size) },
            thread_serial: Serial { num: be_u32_at(s, pos + w) },
        }, pos + w + 4))
    } else {
        Err(ParseError::Truncated)
    }
}

impl GcRootThreadBlock {
    pub fn parse(s: &[u8], pos: usize, id_size: IdSize) -> (r: Result<(GcRootThreadBlock, usize), ParseError>)
        ensures
            match r {
                Ok((v, e)) => spec_gc_root_thread_block(s@, pos as int, id_size) == Ok::<(GcRootThreadBlock, int), ParseError>((v, e as int)),
                Err(err) => spec_gc_root_thread_block(s@, pos as int, id_size) == Err::<(GcRootThreadBlock, int), ParseError>(err),
            },
    {
        let p = pos;
        let (obj_id, p) = read_id(s, p, id_size)?;
        let (thread_serial, p) = read_u32(s, p)?;
        Ok((GcRootThreadBlock {
            obj_id,
            thread_serial: Serial { num: thread_serial },
        }, p))
    }

    pub fn obj_id(&self) -> (r: Id)
        ensures
            r == self.obj_id,
    {
        self.obj_id
    }

    pub fn thread_serial(&self) -> (r: Serial)
        ensures
            r == self.thread_serial,
    {
        self.thread_serial
    }
}

#[derive(Clone, Copy, Debug, PartialEq, Eq, Structural)]
pub struct GcRootBusyMonitor {
    pub obj_id: Id,
}

pub open spec fn spec_gc_root_busy_monitor(s: Seq<u8>, pos: int, id_size: IdSize) -> Result<(GcRootBusyMonitor, int), ParseError> {
    let w = id_size.bytes();
    if fits(s, pos, w) {
        Ok((GcRootBusyMonitor {
            obj_id: Id { id: id_at(s, pos, id_size) },
        }, pos + w))
    } else {
        Err(ParseError::Truncated)
    }
}

impl GcRootBusyMonitor {
    pub fn parse(s: &[u8], pos: usize, id_size: IdSize) -> (r: Result<(GcRootBusyMonitor, usize), ParseError>)
        ensures
            match r {
                Ok((v, e)) => spec_gc_root_busy_monitor(s@, pos as int, id_size) == Ok::<(GcRootBusyMonitor, int), ParseError>((v, e as int)),
                Err(err) => spec_gc_root_busy_monitor(s@, pos as int, id_size) == Err::<(GcRootBusyMonitor, int), ParseError>(err),
            },
    {
        let p = pos;
        let (obj_id, p) = read_id(s, p, id_size)?;
        Ok((GcRootBusyMonitor {
            obj_id,
        }, p))
    }

    pub fn obj_id(&self) -> (r: Id)
        ensures
            r == self.obj_id,
    {
        self.obj_id
    }
}

/// A class: its ids, its instance size, and its static fields and instance field
/// descriptors, which are read on demand.
#[derive(Clone, Copy)]
pub struct Class<'a> {
    pub id_size: IdSize,
    pub obj_id: Id,
    pub stack_trace_serial: Serial,
    pub super_class_obj_id: Option<Id>,
    pub class_loader_obj_id: Option<Id>,
    pub signers_obj_id: Option<Id>,
    pub protection_domain_obj_id: Option<Id>,
    pub instance_size_bytes: u32,
    pub num_static_fields: u16,
    pub static_fields: &'a [u8],
    pub num_instance_fields: u16,
    pub instance_fields: &'a [u8],
}

pub struct ClassModel {
    pub id_size: IdSize,
    pub obj_id: Id,
    pub stack_trace_serial: Serial,
    pub super_class_obj_id: Option<Id>,
    pub class_loader_obj_id: Option<Id>,
    pub signers_obj_id: Option<Id>,
    pub protection_domain_obj_id: Option<Id>,
    pub instance_size_bytes: u32,
    pub num_static_fields: u16,
    pub static_fields: Seq<u8>,
    pub num_instance_fields: u16,
    pub instance_fields: Seq<u8>,
}

impl<'a> View for Class<'a> {
    type V = ClassModel;

    open spec fn view(&self) -> ClassModel {
        ClassModel {
            id_size: self.id_size,
            obj_id: self.obj_id,
            stack_trace_serial: self.stack_trace_serial,
            super_class_obj_id: self.super_class_obj_id,
            class_loader_obj_id: self.class_loader_obj_id,
            signers_obj_id: self.signers_obj_id,
            protection_domain_obj_id: self.protection_domain_obj_id,
            instance_size_bytes: self.instance_size_bytes,
            num_static_fields: self.num_static_fields,
            static_fields: self.static_fields@,
            num_instance_fields: self.num_instance_fields,
            instance_fields: self.instance_fields@,
        }
    }
}

/// Where a class's constant-pool length is stored, counted from the start of its body.
pub open spec fn class_constant_pool_offset(id_size: IdSize) -> int {
    7 * id_size.bytes() + 8
}

/// The class whose body starts at `pos` of `s`, with the position just past it.
///
/// The body holds the class's id, a stack-trace serial, four optional ids (super class,
/// class loader, signers, protection domain), two reserved ids, the instance size, a
/// constant-pool length that must be zero, the static fields, and the instance field
/// descriptors.
pub open spec fn spec_class(s: Seq<u8>, pos: int, id_size: IdSize) -> Result<(ClassModel, int), ParseError> {
    let w = id_size.bytes();
    if !fits(s, pos, 7 * w + 12) {
        Err(ParseError::Truncated)
    } else {
        let cp = be_u16_at(s, pos + class_constant_pool_offset(id_size));
        if cp != 0 {
            Err(ParseError::NonZeroConstantPool(cp))
        } else {
            let num_static = be_u16_at(s, pos + 7 * w + 10);
            let a = pos + 7 * w + 12;
            match spec_skip(StaticFieldEntryParser { id_size }, s, a, num_static as nat) {
                Err(err) => Err(err),
                Ok(b) => if !fits(s, b, 2) {
                    Err(ParseError::Truncated)
                } else {
                    let num_inst = be_u16_at(s, b);
                    let len = num_inst as int * (w + 1);
                    if !fits(s, b + 2, len) {
                        Err(ParseError::Truncated)
                    } else {
                        Ok((ClassModel {
                            id_size,
                            obj_id: Id { id: id_at(s, pos, id_size) },
                            stack_trace_serial: Serial { num: be_u32_at(s, pos + w) },
                            super_class_obj_id: optional_id(id_at(s, pos + w + 4, id_size)),
                            class_loader_obj_id: optional_id(id_at(s, pos + 2 * w + 4, id_size)),
                            signers_obj_id: optional_id(id_at(s, pos + 3 * w + 4, id_size)),
                            protection_domain_obj_id: optional_id(id_at(s, pos + 4 * w + 4, id_size)),
                            instance_size_bytes: be_u32_at(s, pos + 7 * w + 4),
                            num_static_fields: num_static,
                            static_fields: s.subrange(a, b),
                            num_instance_fields: num_inst,
                            instance_fields: s.subrange(b + 2, b + 2 + len),
                        }, b + 2 + len))
                    }
                },
            }
        }
    }
}

/// A class that parses declares an empty constant pool.
pub proof fn lemma_class_constant_pool_empty(s: Seq<u8>, pos: int, id_size: IdSize)
    requires
        spec_class(s, pos, id_size) is Ok,
    ensures
        be_u16_at(s, pos + class_constant_pool_offset(id_size)) == 0,
{
}

/// Reading static field entries moves forward and stays within the input.
pub proof fn lemma_static_fields_skip_forward(s: Seq<u8>, pos: int, count: nat, id_size: IdSize)
    requires
        0 <= pos,
        spec_skip(StaticFieldEntryParser { id_size }, s, pos, count) is Ok,
    ensures
        pos <= spec_skip(StaticFieldEntryParser { id_size }, s, pos, count)->Ok_0,
        count > 0 ==> pos < spec_skip(StaticFieldEntryParser { id_size }, s, pos, count)->Ok_0 <= s.len(),
    decreases count,
{
    if count > 0 {
        let p = StaticFieldEntryParser { id_size };
        let e = p.spec_parse(s, pos)->Ok_0.1;
        assert(pos < e <= s.len());
        lemma_static_fields_skip_forward(s, e, (count - 1) as nat, id_size);
    }
}

/// A class body is its fixed part, then its static fields, then the count and the
/// descriptors of its instance fields, each of which takes an id and a type byte.
pub proof fn lemma_class_layout(s: Seq<u8>, pos: int, id_size: IdSize)
    requires
        0 <= pos,
        spec_class(s, pos, id_size) is Ok,
    ensures
        ({
            let (m, e) = spec_class(s, pos, id_size)->Ok_0;
            &&& m.instance_fields.len() == m.num_instance_fields as int * (id_size.bytes() + 1)
            &&& e - pos == 7 * id_size.bytes() + 12 + m.static_fields.len() + 2 + m.instance_fields.len()
            &&& (m.num_static_fields == 0 ==> m.static_fields.len() == 0)
        }),
{
    let w = id_size.bytes();
    let a = pos + 7 * w + 12;
    let n = be_u16_at(s, pos + 7 * w + 10);
    lemma_static_fields_skip_forward(s, a, n as nat, id_size);
}

impl<'a> Class<'a> {
    pub fn parse(s: &'a [u8], pos: usize, id_size: IdSize) -> (r: Result<(Class<'a>, usize), ParseError>)
        ensures
            match r {
                Ok((c, e)) => spec_class(s@, pos as int, id_size) == Ok::<(ClassModel, int), ParseError>((c@, e as int)),
                Err(err) => spec_class(s@, pos as int, id_size) == Err::<(ClassModel, int), ParseError>(err),
            },
    {
        let (obj_id, p) = read_id(s, pos, id_size)?;
        let (stack_trace_serial, p) = read_u32(s, p)?;
        let (super_class_obj_id, p) = read_optional_id(s, p, id_size)?;
        let (class_loader_obj_id, p) = read_optional_id(s, p, id_size)?;
        let (signers_obj_id, p) = read_optional_id(s, p, id_size)?;
        let (protection_domain_obj_id, p) = read_optional_id(s, p, id_size)?;
        let (_reserved, p) = read_id(s, p, id_size)?;
        let (_reserved, p) = read_id(s, p, id_size)?;
        let (instance_size_bytes, p) = read_u32(s, p)?;
        let (constant_pool_len, p) = read_u16(s, p)?;
        let (num_static_fields, a) = read_u16(s, p)?;
        if constant_pool_len != 0 {
            return Err(ParseError::NonZeroConstantPool(constant_pool_len));
        }
        let parser = StaticFieldEntryParser { id_size };
        let b = skip_items(&parser, s, a, num_static_fields as u32)?;
        let (num_instance_fields, c) = read_u16(s, b)?;
        let w = id_size.size_in_bytes();
        proof {
            assert(w <= 8);
            assert((num_instance_fields as int) * (w + 1) <= 0xFFFF * 9) by (nonlinear_arith)
                requires
                    num_instance_fields <= 0xFFFF,
                    w <= 8,
            ;
        }
        let len: u64 = (num_instance_fields as u64) * (w as u64 + 1);
        if len > (s.len() - c) as u64 {
            return Err(ParseError::Truncated);
        }
        let end = c + len as usize;
        let class = Class {
            id_size,
            obj_id,
            stack_trace_serial: Serial { num: stack_trace_serial },
            super_class_obj_id,
            class_loader_obj_id,
            signers_obj_id,
            protection_domain_obj_id,
            instance_size_bytes,
            num_static_fields,
            static_fields: &s[a..b],
            num_instance_fields,
            instance_fields: &s[c..end],
        };
        proof {
            assert(class@ == spec_class(s@, pos as int, id_size)->Ok_0.0);
        }
        Ok((class, end))
    }

    pub fn obj_id(&self) -> (r: Id)
        ensures
            r == self.obj_id,
    {
        self.obj_id
    }

    pub fn stack_trace_serial(&self) -> (r: Serial)
        ensures
            r == self.stack_trace_serial,
    {
        self.stack_trace_serial
    }

    pub fn super_class_obj_id(&self) -> (r: Option<Id>)
        ensures
            r == self.super_class_obj_id,
    {
        self.super_class_obj_id
    }

    pub fn class_loader_obj_id(&self) -> (r: Option<Id>)
        ensures
            r == self.class_loader_obj_id,
    {
        self.class_loader_obj_id
    }

    pub fn signers_obj_id(&self) -> (r: Option<Id>)
        ensures
            r == self.signers_obj_id,
    {
        self.signers_obj_id
    }

    pub fn protection_domain_obj_id(&self) -> (r: Option<Id>)
        ensures
            r == self.protection_domain_obj_id,
    {
        self.protection_domain_obj_id
    }

    pub fn instance_size_bytes(&self) -> (r: u32)
        ensures
            r == self.instance_size_bytes,
    {
        self.instance_size_bytes
    }

    /// Iterates over the static fields.
    pub fn static_fields(&self) -> (r: StaticFieldEntries<'a>)
        ensures
            r.wf(),
            r.parser.id_size == self.id_size,
            r.data == self.static_fields,
            r.pos == 0,
            r.num_remaining == self.num_static_fields,
    {
        ParsingIterator::new(StaticFieldEntryParser { id_size: self.id_size }, self.static_fields, self.num_static_fields as u32)
    }

    /// Iterates over the descriptors of the fields that this class itself declares.
    pub fn instance_field_descriptors(&self) -> (r: FieldDescriptors<'a>)
        ensures
            r.wf(),
            r.parser.id_size == self.id_size,
            r.data == self.instance_fields,
            r.pos == 0,
            r.num_remaining == self.num_instance_fields,
    {
        ParsingIterator::new(FieldDescriptorParser { id_size: self.id_size }, self.instance_fields, self.num_instance_fields as u32)
    }
}

/// An object: its ids and the packed values of its fields, those of its class first,
/// then those of each super class in turn.
#[derive(Clone, Copy)]
pub struct Instance<'a> {
    pub obj_id: Id,
    pub stack_trace_serial: Serial,
    pub class_obj_id: Id,
    pub fields: &'a [u8],
}

pub struct InstanceModel {
    pub obj_id: Id,
    pub stack_trace_serial: Serial,
    pub class_obj_id: Id,
    pub fields: Seq<u8>,
}

impl<'a> View for Instance<'a> {
    type V = InstanceModel;

    open spec fn view(&self) -> InstanceModel {
        InstanceModel {
            obj_id: self.obj_id,
            stack_trace_serial: self.stack_trace_serial,
            class_obj_id: self.class_obj_id,
            fields: self.fields@,
        }
    }
}

pub open spec fn spec_instance(s: Seq<u8>, pos: int, id_size: IdSize) -> Result<(InstanceModel, int), ParseError> {
    let w = id_size.bytes();
    if !fits(s, pos, 2 * w + 8) {
        Err(ParseError::Truncated)
    } else {
        let len = be_u32_at(s, pos + 2 * w + 4) as int;
        let a = pos + 2 * w + 8;
        if !fits(s, a, len) {
            Err(ParseError::Truncated)
        } else {
            Ok((InstanceModel {
                obj_id: Id { id: id_at(s, pos, id_size) },
                stack_trace_serial: Serial { num: be_u32_at(s, pos + w) },
                class_obj_id: Id { id: id_at(s, pos + w + 4, id_size) },
                fields: s.subrange(a, a + len),
            }, a + len))
        }
    }
}

impl<'a> Instance<'a> {
    pub fn parse(s: &'a [u8], pos: usize, id_size: IdSize) -> (r: Result<(Instance<'a>, usize), ParseError>)
        ensures
            match r {
                Ok((v, e)) => spec_instance(s@, pos as int, id_size) == Ok::<(InstanceModel, int), ParseError>((v@, e as int)),
                Err(err) => spec_instance(s@, pos as int, id_size) == Err::<(InstanceModel, int), ParseError>(err),
            },
    {
        let (obj_id, p) = read_id(s, pos, id_size)?;
        let (stack_trace_serial, p) = read_u32(s, p)?;
        let (class_obj_id, p) = read_id(s, p, id_size)?;
        let (len, a) = read_u32(s, p)?;
        if len as usize > s.len() - a {
            return Err(ParseError::Truncated);
        }
        let end = a + len as usize;
        let v = Instance { obj_id, stack_trace_serial: Serial { num: stack_trace_serial }, class_obj_id, fields: &s[a..end] };
        proof {
            assert(v@ == spec_instance(s@, pos as int, id_size)->Ok_0.0);
        }
        Ok((v, end))
    }

    pub fn obj_id(&self) -> (r: Id)
        ensures
            r == self.obj_id,
    {
        self.obj_id
    }

    pub fn stack_trace_serial(&self) -> (r: Serial)
        ensures
            r == self.stack_trace_serial,
    {
        self.stack_trace_serial
    }

    pub fn class_obj_id(&self) -> (r: Id)
        ensures
            r == self.class_obj_id,
    {
        self.class_obj_id
    }

    /// The packed field values.
    pub fn fields(&self) -> (r: &'a [u8])
        ensures
            r == self.fields,
    {
        self.fields
    }
}

/// An array of object references.
#[derive(Clone, Copy)]
pub struct ObjectArray<'a> {
    pub obj_id: Id,
    pub stack_trace_serial: Serial,
    pub array_class_obj_id: Id,
    pub num_elements: u32,
    pub contents: &'a [u8],
}

pub struct ObjectArrayModel {
    pub obj_id: Id,
    pub stack_trace_serial: Serial,
    pub array_class_obj_id: Id,
    pub num_elements: u32,
    pub contents: Seq<u8>,
}

impl<'a> View for ObjectArray<'a> {
    type V = ObjectArrayModel;

    open spec fn view(&self) -> ObjectArrayModel {
        ObjectArrayModel {
            obj_id: self.obj_id,
            stack_trace_serial: self.stack_trace_serial,
            array_class_obj_id: self.array_class_obj_id,
            num_elements: self.num_elements,
            contents: self.contents@,
        }
    }
}

pub open spec fn spec_object_array(s: Seq<u8>, pos: int, id_size: IdSize) -> Result<(ObjectArrayModel, int), ParseError> {
    let w = id_size.bytes();
    if !fits(s, pos, 2 * w + 8) {
        Err(ParseError::Truncated)
    } else {
        let num = be_u32_at(s, pos + w + 4);
        let len = num as int * w;
        let a = pos + 2 * w + 8;
        if !fits(s, a, len) {
            Err(ParseError::Truncated)
        } else {
            Ok((ObjectArrayModel {
                obj_id: Id { id: id_at(s, pos, id_size) },
                stack_trace_serial: Serial { num: be_u32_at(s, pos + w) },
                array_class_obj_id: Id { id: id_at(s, pos + w + 8, id_size) },
                num_elements: num,
                contents: s.subrange(a, a + len),
            }, a + len))
        }
    }
}

/// An object array declares as many ids as its contents hold.
pub proof fn lemma_object_array_len(s: Seq<u8>, pos: int, id_size: IdSize)
    requires
        spec_object_array(s, pos, id_size) is Ok,
    ensures
        spec_object_array(s, pos, id_size)->Ok_0.0.num_elements * id_size.bytes()
            == spec_object_array(s, pos, id_size)->Ok_0.0.contents.len(),
{
}

/// An object array of zero elements is valid, and its contents are empty.
pub proof fn lemma_empty_object_array(s: Seq<u8>, pos: int, id_size: IdSize)
    requires
        fits(s, pos, 2 * id_size.bytes() + 8),
        be_u32_at(s, pos + id_size.bytes() + 4) == 0,
    ensures
        spec_object_array(s, pos, id_size) is Ok,
        spec_object_array(s, pos, id_size)->Ok_0.0.contents.len() == 0,
{
}

impl<'a> ObjectArray<'a> {
    pub fn parse(s: &'a [u8], pos: usize, id_size: IdSize) -> (r: Result<(ObjectArray<'a>, usize), ParseError>)
        ensures
            match r {
                Ok((v, e)) => spec_object_array(s@, pos as int, id_size) == Ok::<(ObjectArrayModel, int), ParseError>((v@, e as int)),
                Err(err) => spec_object_array(s@, pos as int, id_size) == Err::<(ObjectArrayModel, int), ParseError>(err),
            },
    {
        let (obj_id, p) = read_id(s, pos, id_size)?;
        let (stack_trace_serial, p) = read_u32(s, p)?;
        let (num_elements, p) = read_u32(s, p)?;
        let (array_class_obj_id, a) = read_id(s, p, id_size)?;
        let w = id_size.size_in_bytes();
        proof {
            assert(w <= 8);
            assert((num_elements as int) * w <= 0xFFFF_FFFF * 8) by (nonlinear_arith)
                requires
                    num_elements <= 0xFFFF_FFFF,
                    w <= 8,
            ;
        }
        let len: u64 = (num_elements as u64) * (w as u64);
        if len > (s.len() - a) as u64 {
            return Err(ParseError::Truncated);
        }
        let end = a + len as usize;
        let v = ObjectArray {
            obj_id,
            stack_trace_serial: Serial { num: stack_trace_serial },
            array_class_obj_id,
            num_elements,
            contents: &s[a..end],
        };
        proof {
            assert(v@ == spec_object_array(s@, pos as int, id_size)->Ok_0.0);
        }
        Ok((v, end))
    }

    pub fn obj_id(&self) -> (r: Id)
        ensures
            r == self.obj_id,
    {
        self.obj_id
    }

    pub fn stack_trace_serial(&self) -> (r: Serial)
        ensures
            r == self.stack_trace_serial,
    {
        self.stack_trace_serial
    }

    pub fn array_class_obj_id(&self) -> (r: Id)
        ensures
            r == self.array_class_obj_id,
    {
        self.array_class_obj_id
    }

    /// Iterates over the elements; a null element is `None`.
    pub fn elements(&self, id_size: IdSize) -> (r: NullableIds<'a>)
        ensures
            r.wf(),
            r.parser.id_size == id_size,
            r.data == self.contents,
            r.pos == 0,
            r.num_remaining == self.num_elements,
    {
        ParsingIterator::new(NullableIdParser { id_size }, self.contents, self.num_elements)
    }
}

/// One entry of a heap dump.
pub enum SubRecord<'a> {
    GcRootUnknown(GcRootUnknown),
    GcRootThreadObj(GcRootThreadObj),
    GcRootJniGlobal(GcRootJniGlobal),
    GcRootJniLocalRef(GcRootJniLocalRef),
    GcRootJavaStackFrame(GcRootJavaStackFrame),
    GcRootNativeStack(GcRootNativeStack),
    GcRootSystemClass(GcRootSystemClass),
    GcRootThreadBlock(GcRootThreadBlock),
    GcRootBusyMonitor(GcRootBusyMonitor),
    Class(Class<'a>),
    Instance(Instance<'a>),
    ObjectArray(ObjectArray<'a>),
    PrimitiveArray(PrimitiveArray<'a>),
}

pub enum SubRecordModel {
    GcRootUnknown(GcRootUnknown),
    GcRootThreadObj(GcRootThreadObj),
    GcRootJniGlobal(GcRootJniGlobal),
    GcRootJniLocalRef(GcRootJniLocalRef),
    GcRootJavaStackFrame(GcRootJavaStackFrame),
    GcRootNativeStack(GcRootNativeStack),
    GcRootSystemClass(GcRootSystemClass),
    GcRootThreadBlock(GcRootThreadBlock),
    GcRootBusyMonitor(GcRootBusyMonitor),
    Class(ClassModel),
    Instance(InstanceModel),
    ObjectArray(ObjectArrayModel),
    PrimitiveArray(PrimitiveArrayModel),
}

impl<'a> View for SubRecord<'a> {
    type V = SubRecordModel;

    open spec fn view(&self) -> SubRecordModel {
        match self {
            SubRecord::GcRootUnknown(v) => SubRecordModel::GcRootUnknown(*v),
            SubRecord::GcRootThreadObj(v) => SubRecordModel::GcRootThreadObj(*v),
            SubRecord::GcRootJniGlobal(v) => SubRecordModel::GcRootJniGlobal(*v),
            SubRecord::GcRootJniLocalRef(v) => SubRecordModel::GcRootJniLocalRef(*v),
            SubRecord::GcRootJavaStackFrame(v) => SubRecordModel::GcRootJavaStackFrame(*v),
            SubRecord::GcRootNativeStack(v) => SubRecordModel::GcRootNativeStack(*v),
            SubRecord::GcRootSystemClass(v) => SubRecordModel::GcRootSystemClass(*v),
            SubRecord::GcRootThreadBlock(v) => SubRecordModel::GcRootThreadBlock(*v),
            SubRecord::GcRootBusyMonitor(v) => SubRecordModel::GcRootBusyMonitor(*v),
            SubRecord::Class(v) => SubRecordModel::Class(v@),
            SubRecord::Instance(v) => SubRecordModel::Instance(v@),
            SubRecord::ObjectArray(v) => SubRecordModel::ObjectArray(v@),
            SubRecord::PrimitiveArray(v) => SubRecordModel::PrimitiveArray(v@),
        }
    }
}

/// The sub-record that starts at `pos` of `s`, selected by its tag byte, with the position
/// just past it.
pub open spec fn spec_sub_record(s: Seq<u8>, pos: int, id_size: IdSize) -> Result<(SubRecordModel, int), ParseError> {
    if !fits(s, pos, 1) {
        Err(ParseError::Truncated)
    } else {
        let t = s[pos];
        let p = pos + 1;
        if t == 0xFF {
            match spec_gc_root_unknown(s, p, id_size) {
                Ok((v, e)) => Ok((SubRecordModel::GcRootUnknown(v), e)),
                Err(err) => Err(err),
            }
        } else if t == 0x08 {
            match spec_gc_root_thread_obj(s, p, id_size) {
                Ok((v, e)) => Ok((SubRecordModel::GcRootThreadObj(v), e)),
                Err(err) => Err(err),
            }
        } else if t == 0x01 {
            match spec_gc_root_jni_global(s, p, id_size) {
                Ok((v, e)) => Ok((SubRecordModel::GcRootJniGlobal(v), e)),
                Err(err) => Err(err),
            }
        } else if t == 0x02 {
            match spec_gc_root_jni_local_ref(s, p, id_size) {
                Ok((v, e)) => Ok((SubRecordModel::GcRootJniLocalRef(v), e)),
                Err(err) => Err(err),
            }
        } else if t == 0x03 {
            match spec_gc_root_java_stack_frame(s, p, id_size) {
                Ok((v, e)) => Ok((SubRecordModel::GcRootJavaStackFrame(v), e)),
                Err(err) => Err(err),
            }
        } else if t == 0x04 {
            match spec_gc_root_native_stack(s, p, id_size) {
                Ok((v, e)) => Ok((SubRecordModel::GcRootNativeStack(v), e)),
                Err(err) => Err(err),
            }
        } else if t == 0x05 {
            match spec_gc_root_system_class(s, p, id_size) {
                Ok((v, e)) => Ok((SubRecordModel::GcRootSystemClass(v), e)),
                Err(err) => Err(err),
            }
        } else if t == 0x06 {
            match spec_gc_root_thread_block(s, p, id_size) {
                Ok((v, e)) => Ok((SubRecordModel::GcRootThreadBlock(v), e)),
                Err(err) => Err(err),
            }
        } else if t == 0x07 {
            match spec_gc_root_busy_monitor(s, p, id_size) {
                Ok((v, e)) => Ok((SubRecordModel::GcRootBusyMonitor(v), e)),
                Err(err) => Err(err),
            }
        } else if t == 0x20 {
            match spec_class(s, p, id_size) {
                Ok((v, e)) => Ok((SubRecordModel::Class(v), e)),
                Err(err) => Err(err),
            }
        } else if t == 0x21 {
            match spec_instance(s, p, id_size) {
                Ok((v, e)) => Ok((SubRecordModel::Instance(v), e)),
                Err(err) => Err(err),
            }
        } else if t == 0x22 {
            match spec_object_array(s, p, id_size) {
                Ok((v, e)) => Ok((SubRecordModel::ObjectArray(v), e)),
                Err(err) => Err(err),
            }
        } else if t == 0x23 {
            match spec_primitive_array(s, p, id_size) {
                Ok((v, e)) => Ok((SubRecordModel::PrimitiveArray(v), e)),
                Err(err) => Err(err),
            }
        } else {
            Err(ParseError::UnknownSubRecordTag(t))
        }
    }
}

/// Parsing a sub-record is a function of the bytes alone: equal inputs give equal results.
pub proof fn lemma_sub_record_parse_deterministic(s1: Seq<u8>, s2: Seq<u8>, pos: int, id_size: IdSize)
    requires
        s1 =~= s2,
    ensures
        spec_sub_record(s1, pos, id_size) == spec_sub_record(s2, pos, id_size),
{
}

impl<'a> SubRecord<'a> {
    pub open spec fn spec_kind_name(&self) -> &'static str {
        match self {
            SubRecord::GcRootUnknown(_) => "GcRootUnknown",
            SubRecord::GcRootThreadObj(_) => "GcRootThreadObj",
            SubRecord::GcRootJniGlobal(_) => "GcRootJniGlobal",
            SubRecord::GcRootJniLocalRef(_) => "GcRootJniLocalRef",
            SubRecord::GcRootJavaStackFrame(_) => "GcRootJavaStackFrame",
            SubRecord::GcRootNativeStack(_) => "GcRootNativeStack",
            SubRecord::GcRootSystemClass(_) => "GcRootSystemClass",
            SubRecord::GcRootThreadBlock(_) => "GcRootThreadBlock",
            SubRecord::GcRootBusyMonitor(_) => "GcRootBusyMonitor",
            SubRecord::Class(_) => "Class",
            SubRecord::Instance(_) => "Instance",
            SubRecord::ObjectArray(_) => "ObjectArray",
            SubRecord::PrimitiveArray(_) => "PrimitiveArray",
        }
    }

    /// The name of the kind of sub-record.
    pub fn kind_name(&self) -> (r: &'static str)
        ensures
            r == self.spec_kind_name(),
    {
        match self {
            SubRecord::GcRootUnknown(_) => "GcRootUnknown",
            SubRecord::GcRootThreadObj(_) => "GcRootThreadObj",
            SubRecord::GcRootJniGlobal(_) => "GcRootJniGlobal",
            SubRecord::GcRootJniLocalRef(_) => "GcRootJniLocalRef",
            SubRecord::GcRootJavaStackFrame(_) => "GcRootJavaStackFrame",
            SubRecord::GcRootNativeStack(_) => "GcRootNativeStack",
            SubRecord::GcRootSystemClass(_) => "GcRootSystemClass",
            SubRecord::GcRootThreadBlock(_) => "GcRootThreadBlock",
            SubRecord::GcRootBusyMonitor(_) => "GcRootBusyMonitor",
            SubRecord::Class(_) => "Class",
            SubRecord::Instance(_) => "Instance",
            SubRecord::ObjectArray(_) => "ObjectArray",
            SubRecord::PrimitiveArray(_) => "PrimitiveArray",
        }
    }

    pub fn as_gc_root_unknown(&self) -> (r: Option<GcRootUnknown>)
        ensures
            match self {
                SubRecord::GcRootUnknown(v) => r == Some(*v),
                _ => r is None,
            },
    {
        match self {
            SubRecord::GcRootUnknown(v) => Some(*v),
            _ => None,
        }
    }

    pub fn as_class(&self) -> (r: Option<&Class<'a>>)
        ensures
            match self {
                SubRecord::Class(v) => r == Some(v),
                _ => r is None,
            },
    {
        match self {
            SubRecord::Class(v) => Some(v),
            _ => None,
        }
    }

    pub fn parse(s: &'a [u8], pos: usize, id_size: IdSize) -> (r: Result<(SubRecord<'a>, usize), ParseError>)
        ensures
            match r {
                Ok((v, e)) => spec_sub_record(s@, pos as int, id_size) == Ok::<(SubRecordModel, int), ParseError>((v@, e as int)),
                Err(err) => spec_sub_record(s@, pos as int, id_size) == Err::<(SubRecordModel, int), ParseError>(err),
            },
    {
        let (t, p) = read_u8(s, pos)?;
        match t {
            0xFF => {
                let (v, e) = GcRootUnknown::parse(s, p, id_size)?;
                Ok((SubRecord::GcRootUnknown(v), e))
            },
            0x08 => {
                let (v, e) = GcRootThreadObj::parse(s, p, id_size)?;
                Ok((SubRecord::GcRootThreadObj(v), e))
            },
            0x01 => {
                let (v, e) = GcRootJniGlobal::parse(s, p, id_size)?;
                Ok((SubRecord::GcRootJniGlobal(v), e))
            },
            0x02 => {
                let (v, e) = GcRootJniLocalRef::parse(s, p, id_size)?;
                Ok((SubRecord::GcRootJniLocalRef(v), e))
            },
            0x03 => {
                let (v, e) = GcRootJavaStackFrame::parse(s, p, id_size)?;
                Ok((SubRecord::GcRootJavaStackFrame(v), e))
            },
            0x04 => {
                let (v, e) = GcRootNativeStack::parse(s, p, id_size)?;
                Ok((SubRecord::GcRootNativeStack(v), e))
            },
            0x05 => {
                let (v, e) = GcRootSystemClass::parse(s, p, id_size)?;
                Ok((SubRecord::GcRootSystemClass(v), e))
            },
            0x06 => {
                let (v, e) = GcRootThreadBlock::parse(s, p, id_size)?;
                Ok((SubRecord::GcRootThreadBlock(v), e))
            },
            0x07 => {
                let (v, e) = GcRootBusyMonitor::parse(s, p, id_size)?;
                Ok((SubRecord::GcRootBusyMonitor(v), e))
            },
            0x20 => {
                let (v, e) = Class::parse(s, p, id_size)?;
                Ok((SubRecord::Class(v), e))
            },
            0x21 => {
                let (v, e) = Instance::parse(s, p, id_size)?;
                Ok((SubRecord::Instance(v), e))
            },
            0x22 => {
                let (v, e) = ObjectArray::parse(s, p, id_size)?;
                Ok((SubRecord::ObjectArray(v), e))
            },
            0x23 => {
                let (v, e) = PrimitiveArray::parse(s, p, id_size)?;
                Ok((SubRecord::PrimitiveArray(v), e))
            },
            _ => Err(ParseError::UnknownSubRecordTag(t)),
        }
    }
}

/// The sub-records of a `HeapDump` or `HeapDumpSegment` record.
#[derive(Clone, Copy)]
pub struct HeapDumpSegment<'a> {
    pub id_size: IdSize,
    pub records: &'a [u8],
}

impl<'a> HeapDumpSegment<'a> {
    pub fn parse(s: &'a [u8], id_size: IdSize) -> (r: Result<HeapDumpSegment<'a>, ParseError>)
        ensures
            r matches Ok(h) && h.records == s && h.id_size == id_size,
    {
        Ok(HeapDumpSegment { id_size, records: s })
    }

    /// Iterates over the sub-records.
    pub fn sub_records(&self) -> (r: SubRecords<'a>)
        ensures
            r.wf(),
            r.data == self.records,
            r.pos == 0,
            r.id_size == self.id_size,
    {
        SubRecords { data: self.records, pos: 0, id_size: self.id_size }
    }
}

/// Reads the sub-records of a heap dump one after the other.
pub struct SubRecords<'a> {
    pub data: &'a [u8],
    pub pos: usize,
    pub id_size: IdSize,
}

impl<'a> SubRecords<'a> {
    pub open spec fn wf(&self) -> bool {
        self.pos <= self.data@.len()
    }

    /// The next sub-record: `None` at the end of the segment. An error is returned once and
    /// stops the iteration: every later call gives `None`.
    pub fn next(&mut self) -> (r: Option<Result<SubRecord<'a>, ParseError>>)
        requires
            old(self).wf(),
        ensures
            final(self).wf(),
            final(self).data == old(self).data,
            final(self).id_size == old(self).id_size,
            old(self).pos == old(self).data@.len() ==> r is None && final(self).pos == old(self).pos,
            old(self).pos < old(self).data@.len() ==> match spec_sub_record(old(self).data@, old(self).pos as int, old(self).id_size) {
                Ok((m, e)) => r matches Some(Ok(v)) && v@ == m && final(self).pos == e,
                Err(err) => r matches Some(Err(x)) && x == err && final(self).pos == old(self).data@.len(),
            },
    {
        if self.pos == self.data.len() {
            return None;
        }
        match SubRecord::parse(self.data, self.pos, self.id_size) {
            Ok((v, e)) => {
                self.pos = e;
                Some(Ok(v))
            },
            Err(err) => {
                self.pos = self.data.len();
                Some(Err(err))
            },
        }
    }
}

} // verus!
