//! Arrays of JVM primitive values.
use vstd::prelude::*;

use crate::decode::{be_u16_at, be_u32_at, be_u64_at, fits, read_u16, read_u32, read_u64, read_u8};
use crate::{id_at, read_id, ElementParser, EnumIterable, Id, IdSize, ParseError, ParsingIterator, Serial};

verus! {

/// The element type of a primitive array.
#[derive(Clone, Copy, Debug, PartialEq, Eq, Hash, Structural)]
pub enum PrimitiveArrayType {
    Boolean,
    Char,
    Float,
    Double,
    Byte,
    Short,
    Int,
    Long,
}

impl PrimitiveArrayType {
    pub open spec fn spec_java_type_name(self) -> &'static str {
        match self {
            PrimitiveArrayType::Boolean => "boolean",
            PrimitiveArrayType::Char => "char",
            PrimitiveArrayType::Float => "float",
            PrimitiveArrayType::Double => "double",
            PrimitiveArrayType::Byte => "byte",
            PrimitiveArrayType::Short => "short",
            PrimitiveArrayType::Int => "int",
            PrimitiveArrayType::Long => "long",
        }
    }

    /// The hprof type code of the element type.
    pub open spec fn spec_type_code(self) -> u8 {
        match self {
            PrimitiveArrayType::Boolean => 0x04,
            PrimitiveArrayType::Char => 0x05,
            PrimitiveArrayType::Float => 0x06,
            PrimitiveArrayType::Double => 0x07,
            PrimitiveArrayType::Byte => 0x08,
            PrimitiveArrayType::Short => 0x09,
            PrimitiveArrayType::Int => 0x0A,
            PrimitiveArrayType::Long => 0x0B,
        }
    }

    /// How many bytes an element takes.
    pub open spec fn width(self) -> int {
        match self {
            PrimitiveArrayType::Boolean => 1,
            PrimitiveArrayType::Char => 2,
            PrimitiveArrayType::Float => 4,
            PrimitiveArrayType::Double => 8,
            PrimitiveArrayType::Byte => 1,
            PrimitiveArrayType::Short => 2,
            PrimitiveArrayType::Int => 4,
            PrimitiveArrayType::Long => 8,
        }
    }

    pub open spec fn spec_from_type_code(b: u8) -> Option<PrimitiveArrayType> {
        if b == 0x04 { Some(PrimitiveArrayType::Boolean) }
        else if b == 0x05 { Some(PrimitiveArrayType::Char) }
        else if b == 0x06 { Some(PrimitiveArrayType::Float) }
        else if b == 0x07 { Some(PrimitiveArrayType::Double) }
        else if b == 0x08 { Some(PrimitiveArrayType::Byte) }
        else if b == 0x09 { Some(PrimitiveArrayType::Short) }
        else if b == 0x0A { Some(PrimitiveArrayType::Int) }
        else if b == 0x0B { Some(PrimitiveArrayType::Long) }
        else { None }
    }

    /// The Java name of the element type.
    pub fn java_type_name(&self) -> (r: &'static str)
        ensures
            r == self.spec_java_type_name(),
    {
        match self {
            PrimitiveArrayType::Boolean => "boolean",
            PrimitiveArrayType::Char => "char",
            PrimitiveArrayType::Float => "float",
            PrimitiveArrayType::Double => "double",
            PrimitiveArrayType::Byte => "byte",
            PrimitiveArrayType::Short => "short",
            PrimitiveArrayType::Int => "int",
            PrimitiveArrayType::Long => "long",
        }
    }

    /// The hprof type code of the element type.
    pub fn type_code(&self) -> (r: u8)
        ensures
            r == self.spec_type_code(),
    {
        match self {
            PrimitiveArrayType::Boolean => 0x04,
            PrimitiveArrayType::Char => 0x05,
            PrimitiveArrayType::Float => 0x06,
            PrimitiveArrayType::Double => 0x07,
            PrimitiveArrayType::Byte => 0x08,
            PrimitiveArrayType::Short => 0x09,
            PrimitiveArrayType::Int => 0x0A,
            PrimitiveArrayType::Long => 0x0B,
        }
    }

    /// The element type with the given hprof type code, if any.
    pub fn from_type_code(type_byte: u8) -> (r: Option<PrimitiveArrayType>)
        ensures
            r == Self::spec_from_type_code(type_byte),
    {
        match type_byte {
            0x04 => Some(PrimitiveArrayType::Boolean),
            0x05 => Some(PrimitiveArrayType::Char),
            0x06 => Some(PrimitiveArrayType::Float),
            0x07 => Some(PrimitiveArrayType::Double),
            0x08 => Some(PrimitiveArrayType::Byte),
            0x09 => Some(PrimitiveArrayType::Short),
            0x0A => Some(PrimitiveArrayType::Int),
            0x0B => Some(PrimitiveArrayType::Long),
            _ => None,
        }
    }

    /// How many bytes an element takes.
    pub fn element_width(&self) -> (r: u32)
        ensures
            r == self.width(),
    {
        match self {
            PrimitiveArrayType::Boolean => 1,
            PrimitiveArrayType::Char => 2,
            PrimitiveArrayType::Float => 4,
            PrimitiveArrayType::Double => 8,
            PrimitiveArrayType::Byte => 1,
            PrimitiveArrayType::Short => 2,
            PrimitiveArrayType::Int => 4,
            PrimitiveArrayType::Long => 8,
        }
    }
}

impl EnumIterable for PrimitiveArrayType {
    fn iter() -> (r: Vec<Self>) {
        let mut r: Vec<PrimitiveArrayType> = Vec::new();
        r.push(PrimitiveArrayType::Boolean);
        r.push(PrimitiveArrayType::Char);
        r.push(PrimitiveArrayType::Float);
        r.push(PrimitiveArrayType::Double);
        r.push(PrimitiveArrayType::Byte);
        r.push(PrimitiveArrayType::Short);
        r.push(PrimitiveArrayType::Int);
        r.push(PrimitiveArrayType::Long);
        proof {
            assert forall|v: Self| #[trigger] r@.contains(v) by {
                match v {
                    PrimitiveArrayType::Boolean => assert(r@[0] == v),
                    PrimitiveArrayType::Char => assert(r@[1] == v),
                    PrimitiveArrayType::Float => assert(r@[2] == v),
                    PrimitiveArrayType::Double => assert(r@[3] == v),
                    PrimitiveArrayType::Byte => assert(r@[4] == v),
                    PrimitiveArrayType::Short => assert(r@[5] == v),
                    PrimitiveArrayType::Int => assert(r@[6] == v),
                    PrimitiveArrayType::Long => assert(r@[7] == v),
                }
            }
            assert forall|i: int, j: int| 0 <= i < r@.len() && 0 <= j < r@.len() && i != j implies r@[i] != r@[j] by {
                assert(r@ == seq![PrimitiveArrayType::Boolean, PrimitiveArrayType::Char, PrimitiveArrayType::Float, PrimitiveArrayType::Double, PrimitiveArrayType::Byte, PrimitiveArrayType::Short, PrimitiveArrayType::Int, PrimitiveArrayType::Long]);
            }
        }
        r
    }
}

/// Reads `bool` elements of 1 byte.
#[derive(Clone, Copy)]
pub struct BoolParser;

impl ElementParser for BoolParser {
    type Item = bool;

    open spec fn spec_parse(&self, s: Seq<u8>, pos: int) -> Result<(bool, int), ParseError> {
        if fits(s, pos, 1) {
            Ok((s[pos] != 0, pos + 1))
        } else {
            Err(ParseError::Truncated)
        }
    }

    fn parse(&self, s: &[u8], pos: usize) -> (r: Result<(bool, usize), ParseError>) {
        let (v, e) = read_u8(s, pos)?;
        Ok((v != 0, e))
    }
}

pub type Booleans<'a> = ParsingIterator<'a, BoolParser>;

/// Reads `u16` elements of 2 bytes.
#[derive(Clone, Copy)]
pub struct CharParser;

impl ElementParser for CharParser {
    type Item = u16;

    open spec fn spec_parse(&self, s: Seq<u8>, pos: int) -> Result<(u16, int), ParseError> {
        if fits(s, pos, 2) {
            Ok((be_u16_at(s, pos), pos + 2))
        } else {
            Err(ParseError::Truncated)
        }
    }

    fn parse(&self, s: &[u8], pos: usize) -> (r: Result<(u16, usize), ParseError>) {
        let (v, e) = read_u16(s, pos)?;
        Ok((v, e))
    }
}

pub type Chars<'a> = ParsingIterator<'a, CharParser>;

/// Reads `u32` elements of 4 bytes.
#[derive(Clone, Copy)]
pub struct FloatBitsParser;

impl ElementParser for FloatBitsParser {
    type Item = u32;

    open spec fn spec_parse(&self, s: Seq<u8>, pos: int) -> Result<(u32, int), ParseError> {
        if fits(s, pos, 4) {
            Ok((be_u32_at(s, pos), pos + 4))
        } else {
            Err(ParseError::Truncated)
        }
    }

    fn parse(&self, s: &[u8], pos: usize) -> (r: Result<(u32, usize), ParseError>) {
        let (v, e) = read_u32(s, pos)?;
        Ok((v, e))
    }
}

pub type Floats<'a> = ParsingIterator<'a, FloatBitsParser>;

/// Reads `u64` elements of 8 bytes.
#[derive(Clone, Copy)]
pub struct DoubleBitsParser;

impl ElementParser for DoubleBitsParser {
    type Item = u64;

    open spec fn spec_parse(&self, s: Seq<u8>, pos: int) -> Result<(u64, int), ParseError> {
        if fits(s, pos, 8) {
            Ok((be_u64_at(s, pos), pos + 8))
        } else {
            Err(ParseError::Truncated)
        }
    }

    fn parse(&self, s: &[u8], pos: usize) -> (r: Result<(u64, usize), ParseError>) {
        let (v, e) = read_u64(s, pos)?;
        Ok((v, e))
    }
}

pub type Doubles<'a> = ParsingIterator<'a, DoubleBitsParser>;

/// Reads `i8` elements of 1 byte.
#[derive(Clone, Copy)]
pub struct ByteParser;

impl ElementParser for ByteParser {
    type Item = i8;

    open spec fn spec_parse(&self, s: Seq<u8>, pos: int) -> Result<(i8, int), ParseError> {
        if fits(s, pos, 1) {
            Ok((s[pos] as i8, pos + 1))
        } else {
            Err(ParseError::Truncated)
        }
    }

    fn parse(&self, s: &[u8], pos: usize) -> (r: Result<(i8, usize), ParseError>) {
        let (v, e) = read_u8(s, pos)?;
        Ok((v as i8, e))
    }
}

pub type Bytes<'a> = ParsingIterator<'a, ByteParser>;

/// Reads `i16` elements of 2 bytes.
#[derive(Clone, Copy)]
pub struct ShortParser;

impl ElementParser for ShortParser {
    type Item = i16;

    open spec fn spec_parse(&self, s: Seq<u8>, pos: int) -> Result<(i16, int), ParseError> {
        if fits(s, pos, 2) {
            Ok((be_u16_at(s, pos) as i16, pos + 2))
        } else {
            Err(ParseError::Truncated)
        }
    }

    fn parse(&self, s: &[u8], pos: usize) -> (r: Result<(i16, usize), ParseError>) {
        let (v, e) = read_u16(s, pos)?;
        Ok((v as i16, e))
    }
}

pub type Shorts<'a> = ParsingIterator<'a, ShortParser>;

/// Reads `i32` elements of 4 bytes.
#[derive(Clone, Copy)]
pub struct IntParser;

impl ElementParser for IntParser {
    type Item = i32;

    open spec fn spec_parse(&self, s: Seq<u8>, pos: int) -> Result<(i32, int), ParseError> {
        if fits(s, pos, 4) {
            Ok((be_u32_at(s, pos) as i32, pos + 4))
        } else {
            Err(ParseError::Truncated)
        }
    }

    fn parse(&self, s: &[u8], pos: usize) -> (r: Result<(i32, usize), ParseError>) {
        let (v, e) = read_u32(s, pos)?;
        Ok((v as i32, e))
    }
}

pub type Ints<'a> = ParsingIterator<'a, IntParser>;

/// Reads `i64` elements of 8 bytes.
#[derive(Clone, Copy)]
pub struct LongParser;

impl ElementParser for LongParser {
    type Item = i64;

    open spec fn spec_parse(&self, s: Seq<u8>, pos: int) -> Result<(i64, int), ParseError> {
        if fits(s, pos, 8) {
            Ok((be_u64_at(s, pos) as i64, pos + 8))
        } else {
            Err(ParseError::Truncated)
        }
    }

    fn parse(&self, s: &[u8], pos: usize) -> (r: Result<(i64, usize), ParseError>) {
        let (v, e) = read_u64(s, pos)?;
        Ok((v as i64, e))
    }
}

pub type Longs<'a> = ParsingIterator<'a, LongParser>;

/// An array of JVM primitive values (`int`, `long` and so on).
#[derive(Clone, Copy)]
pub struct PrimitiveArray<'a> {
    pub obj_id: Id,
    pub stack_trace_serial: Serial,
    pub primitive_type: PrimitiveArrayType,
    pub num_elements: u32,
    pub contents: &'a [u8],
}

pub struct PrimitiveArrayModel {
    pub obj_id: Id,
    pub stack_trace_serial: Serial,
    pub primitive_type: PrimitiveArrayType,
    pub num_elements: u32,
    pub contents: Seq<u8>,
}

impl<'a> View for PrimitiveArray<'a> {
    type V = PrimitiveArrayModel;

    open spec fn view(&self) -> PrimitiveArrayModel {
        PrimitiveArrayModel {
            obj_id: self.obj_id,
            stack_trace_serial: self.stack_trace_serial,
            primitive_type: self.primitive_type,
            num_elements: self.num_elements,
            contents: self.contents@,
        }
    }
}

pub open spec fn spec_primitive_array(s: Seq<u8>, pos: int, id_size: IdSize) -> Result<(PrimitiveArrayModel, int), ParseError> {
    let w = id_size.bytes();
    if !fits(s, pos, w + 9) {
        Err(ParseError::Truncated)
    } else {
        let code = s[pos + w + 8];
        match PrimitiveArrayType::spec_from_type_code(code) {
            None => Err(ParseError::UnknownPrimitiveType(code)),
            Some(t) => {
                let num = be_u32_at(s, pos + w + 4);
                let len = num as int * t.width();
                let a = pos + w + 9;
                if !fits(s, a, len) {
                    Err(ParseError::Truncated)
                } else {
                    Ok((PrimitiveArrayModel {
                        obj_id: Id { id: id_at(s, pos, id_size) },
                        stack_trace_serial: Serial { num: be_u32_at(s, pos + w) },
                        primitive_type: t,
                        num_elements: num,
                        contents: s.subrange(a, a + len),
                    }, a + len))
                }
            },
        }
    }
}

/// A primitive array's contents hold exactly its declared number of elements.
pub proof fn lemma_primitive_array_len(s: Seq<u8>, pos: int, id_size: IdSize)
    requires
        spec_primitive_array(s, pos, id_size) is Ok,
    ensures
        spec_primitive_array(s, pos, id_size)->Ok_0.0.num_elements * spec_primitive_array(s, pos, id_size)->Ok_0.0.primitive_type.width()
            == spec_primitive_array(s, pos, id_size)->Ok_0.0.contents.len(),
{
}

/// A primitive array of zero elements has empty contents, so each of its typed
/// iterators starts used up.
pub proof fn lemma_empty_primitive_array(s: Seq<u8>, pos: int, id_size: IdSize)
    requires
        spec_primitive_array(s, pos, id_size) is Ok,
        spec_primitive_array(s, pos, id_size)->Ok_0.0.num_elements == 0,
    ensures
        spec_primitive_array(s, pos, id_size)->Ok_0.0.contents.len() == 0,
{
}

impl<'a> PrimitiveArray<'a> {
    pub fn parse(s: &'a [u8], pos: usize, id_size: IdSize) -> (r: Result<(PrimitiveArray<'a>, usize), ParseError>)
        ensures
            match r {
                Ok((v, e)) => spec_primitive_array(s@, pos as int, id_size) == Ok::<(PrimitiveArrayModel, int), ParseError>((v@, e as int)),
                Err(err) => spec_primitive_array(s@, pos as int, id_size) == Err::<(PrimitiveArrayModel, int), ParseError>(err),
            },
    {
        let (obj_id, p) = read_id(s, pos, id_size)?;
        let (stack_trace_serial, p) = read_u32(s, p)?;
        let (num_elements, p) = read_u32(s, p)?;
        let (type_byte, a) = read_u8(s, p)?;
        let primitive_type = match PrimitiveArrayType::from_type_code(type_byte) {
            Some(t) => t,
            None => return Err(ParseError::UnknownPrimitiveType(type_byte)),
        };
        let width = primitive_type.element_width();
        proof {
            assert(width <= 8);
            assert((num_elements as int) * width <= 0xFFFF_FFFF * 8) by (nonlinear_arith)
                requires
                    num_elements <= 0xFFFF_FFFF,
                    width <= 8,
            ;
        }
        let len: u64 = (num_elements as u64) * (width as u64);
        if len > (s.len() - a) as u64 {
            return Err(ParseError::Truncated);
        }
        let end = a + len as usize;
        let v = PrimitiveArray {
            obj_id,
            stack_trace_serial: Serial { num: stack_trace_serial },
            primitive_type,
            num_elements,
            contents: &s[a..end],
        };
        proof {
            assert(v@ == spec_primitive_array(s@, pos as int, id_size)->Ok_0.0);
        }
        Ok((v, end))
    }

    pub fn obj_id(&self) -> (r: Id)
        ensures
            r == self.obj_id,
    {
        self.obj_id
    }

    pub fn stack_trace_serial(&self) -> (r: Serial)
        ensures
            r == self.stack_trace_serial,
    {
        self.stack_trace_serial
    }

    pub fn primitive_type(&self) -> (r: PrimitiveArrayType)
        ensures
            r == self.primitive_type,
    {
        self.primitive_type
    }

    /// The elements, where the array holds `bool` values; `None` otherwise.
    pub fn booleans(&self) -> (r: Option<Booleans<'a>>)
        ensures
            self.primitive_type == PrimitiveArrayType::Boolean <==> r is Some,
            r matches Some(it) ==> it.wf() && it.data == self.contents && it.pos == 0
                && it.num_remaining == self.num_elements,
    {
        match self.primitive_type {
            PrimitiveArrayType::Boolean => Some(ParsingIterator::new(BoolParser, self.contents, self.num_elements)),
            _ => None,
        }
    }

    /// The elements, where the array holds `u16` values; `None` otherwise.
    pub fn chars(&self) -> (r: Option<Chars<'a>>)
        ensures
            self.primitive_type == PrimitiveArrayType::Char <==> r is Some,
            r matches Some(it) ==> it.wf() && it.data == self.contents && it.pos == 0
                && it.num_remaining == self.num_elements,
    {
        match self.primitive_type {
            PrimitiveArrayType::Char => Some(ParsingIterator::new(CharParser, self.contents, self.num_elements)),
            _ => None,
        }
    }

    /// The elements, where the array holds `u32` values; `None` otherwise.
    pub fn floats(&self) -> (r: Option<Floats<'a>>)
        ensures
            self.primitive_type == PrimitiveArrayType::Float <==> r is Some,
            r matches Some(it) ==> it.wf() && it.data == self.contents && it.pos == 0
                && it.num_remaining == self.num_elements,
    {
        match self.primitive_type {
            PrimitiveArrayType::Float => Some(ParsingIterator::new(FloatBitsParser, self.contents, self.num_elements)),
            _ => None,
        }
    }

    /// The elements, where the array holds `u64` values; `None` otherwise.
    pub fn doubles(&self) -> (r: Option<Doubles<'a>>)
        ensures
            self.primitive_type == PrimitiveArrayType::Double <==> r is Some,
            r matches Some(it) ==> it.wf() && it.data == self.contents && it.pos == 0
                && it.num_remaining == self.num_elements,
    {
        match self.primitive_type {
            PrimitiveArrayType::Double => Some(ParsingIterator::new(DoubleBitsParser, self.contents, self.num_elements)),
            _ => None,
        }
    }

    /// The elements, where the array holds `i8` values; `None` otherwise.
    pub fn bytes(&self) -> (r: Option<Bytes<'a>>)
        ensures
            self.primitive_type == PrimitiveArrayType::Byte <==> r is Some,
            r matches Some(it) ==> it.wf() && it.data == self.contents && it.pos == 0
                && it.num_remaining == self.num_elements,
    {
        match self.primitive_type {
            PrimitiveArrayType::Byte => Some(ParsingIterator::new(ByteParser, self.contents, self.num_elements)),
            _ => None,
        }
    }

    /// The elements, where the array holds `i16` values; `None` otherwise.
    pub fn shorts(&self) -> (r: Option<Shorts<'a>>)
        ensures
            self.primitive_type == PrimitiveArrayType::Short <==> r is Some,
            r matches Some(it) ==> it.wf() && it.data == self.contents && it.pos == 0
                && it.num_remaining == self.num_elements,
    {
        match self.primitive_type {
            PrimitiveArrayType::Short => Some(ParsingIterator::new(ShortParser, self.contents, self.num_elements)),
            _ => None,
        }
    }

    /// The elements, where the array holds `i32` values; `None` otherwise.
    pub fn ints(&self) -> (r: Option<Ints<'a>>)
        ensures
            self.primitive_type == PrimitiveArrayType::Int <==> r is Some,
            r matches Some(it) ==> it.wf() && it.data == self.contents && it.pos == 0
                && it.num_remaining == self.num_elements,
    {
        match self.primitive_type {
            PrimitiveArrayType::Int => Some(ParsingIterator::new(IntParser, self.contents, self.num_elements)),
            _ => None,
        }
    }

    /// The elements, where the array holds `i64` values; `None` otherwise.
    pub fn longs(&self) -> (r: Option<Longs<'a>>)
        ensures
            self.primitive_type == PrimitiveArrayType::Long <==> r is Some,
            r matches Some(it) ==> it.wf() && it.data == self.contents && it.pos == 0
                && it.num_remaining == self.num_elements,
    {
        match self.primitive_type {
            PrimitiveArrayType::Long => Some(ParsingIterator::new(LongParser, self.contents, self.num_elements)),
            _ => None,
        }
    }
}

} // verus!
