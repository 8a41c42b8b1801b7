//! The file header and the entry point of parsing.
use vstd::prelude::*;

use crate::decode::{be_u32_at, be_u64_at, fits, read_u32, read_u64};
use crate::record::{spec_records, Record, RecordModel, Records};
use crate::{IdSize, ParseError};

verus! {

#[verifier::external_type_specification]
#[verifier::external_body]
pub struct ExUtf8Error(core::str::Utf8Error);

/// The text that a sequence of bytes spells as UTF-8, or `None` where it is not valid UTF-8.
pub uninterp spec fn utf8_text(b: Seq<u8>) -> Option<Seq<char>>;

/// Relies on `std::str::from_utf8`: it succeeds exactly when the bytes are valid UTF-8,
/// and then returns those bytes as text.
#[verifier::external_body]
pub(crate) fn str_from_utf8(b: &[u8]) -> (r: Result<&str, core::str::Utf8Error>)
    ensures
        match r {
            Ok(t) => utf8_text(b@) == Some(t@),
            Err(_) => utf8_text(b@) is None,
        },
{
    std::str::from_utf8(b)
}

/// The position of the first zero byte of `s` at or after `i`, or the length of `s`.
pub open spec fn first_nul(s: Seq<u8>, i: int) -> int
    decreases s.len() - i,
{
    if i >= s.len() {
        s.len() as int
    } else if s[i] == 0 {
        i
    } else {
        first_nul(s, i + 1)
    }
}

/// Basic metadata about an hprof: a label, the id size and when it was written.
#[derive(Clone, Copy)]
pub struct Header<'a> {
    pub label: &'a [u8],
    pub id_size: IdSize,
    /// Milliseconds since the epoch.
    pub timestamp_millis: u64,
}

pub struct HeaderModel {
    pub label: Seq<u8>,
    pub id_size: IdSize,
    pub timestamp_millis: u64,
}

impl<'a> View for Header<'a> {
    type V = HeaderModel;

    open spec fn view(&self) -> HeaderModel {
        HeaderModel { label: self.label@, id_size: self.id_size, timestamp_millis: self.timestamp_millis }
    }
}

/// The header at the start of `s`, with the position just past it: a label ended by a
/// zero byte, then the id size, then the timestamp as two big-endian `u32` halves.
pub open spec fn spec_header(s: Seq<u8>) -> Result<(HeaderModel, int), ParseError> {
    let k = first_nul(s, 0);
    if k >= s.len() || !fits(s, k + 1, 12) {
        Err(ParseError::Truncated)
    } else {
        let n = be_u32_at(s, k + 1);
        if n != 4 && n != 8 {
            Err(ParseError::InvalidIdSize(n))
        } else {
            Ok((HeaderModel {
                label: s.subrange(0, k),
                id_size: if n == 4 { IdSize::U32 } else { IdSize::U64 },
                timestamp_millis: be_u64_at(s, k + 5),
            }, k + 13))
        }
    }
}

impl<'a> Header<'a> {
    pub fn id_size(&self) -> (r: IdSize)
        ensures
            r == self.id_size,
    {
        self.id_size
    }

    pub fn timestamp_millis(&self) -> (r: u64)
        ensures
            r == self.timestamp_millis,
    {
        self.timestamp_millis
    }

    /// The label as text, or an error where it is not valid UTF-8.
    pub fn label(&self) -> (r: Result<&'a str, core::str::Utf8Error>)
        ensures
            match r {
                Ok(t) => utf8_text(self.label@) == Some(t@),
                Err(_) => utf8_text(self.label@) is None,
            },
    {
        str_from_utf8(self.label)
    }

    pub fn parse(s: &'a [u8]) -> (r: Result<(Header<'a>, usize), ParseError>)
        ensures
            match r {
                Ok((h, e)) => spec_header(s@) == Ok::<(HeaderModel, int), ParseError>((h@, e as int)),
                Err(err) => spec_header(s@) == Err::<(HeaderModel, int), ParseError>(err),
            },
    {
        let mut k: usize = 0;
        while k < s.len() && s[k] != 0
            invariant
                k <= s@.len(),
                first_nul(s@, 0) == first_nul(s@, k as int),
            decreases s@.len() - k,
        {
            k = k + 1;
        }
        if k == s.len() {
            return Err(ParseError::Truncated);
        }
        if s.len() - (k + 1) < 12 {
            return Err(ParseError::Truncated);
        }
        let (n, p) = read_u32(s, k + 1)?;
        let (timestamp, e) = read_u64(s, p)?;
        let id_size = if n == 4 {
            IdSize::U32
        } else if n == 8 {
            IdSize::U64
        } else {
            return Err(ParseError::InvalidIdSize(n));
        };
        let h = Header { label: &s[0..k], id_size, timestamp_millis: timestamp };
        proof {
            assert(h@ == spec_header(s@)->Ok_0.0);
        }
        Ok((h, e))
    }
}

/// A parsed hprof: its header, and the bytes of its records, which are read on demand.
#[derive(Clone, Copy)]
pub struct Hprof<'a> {
    pub header: Header<'a>,
    pub records: &'a [u8],
}

impl<'a> Hprof<'a> {
    pub fn header(&self) -> (r: Header<'a>)
        ensures
            r == self.header,
    {
        self.header
    }

    /// Iterates over the records, which defer parsing their bodies.
    pub fn records_iter(&self) -> (r: Records<'a>)
        ensures
            r.wf(),
            r.data == self.records,
            r.pos == 0,
            r.id_size == self.header.id_size,
    {
        Records { data: self.records, pos: 0, id_size: self.header.id_size }
    }

    /// Every record, read with [`Hprof::records_iter`] until it ends: exactly the records
    /// of the stream, in order, or the first error.
    pub fn records_vec(&self) -> (r: Result<Vec<Record<'a>>, ParseError>)
        ensures
            match spec_records(self.records@, 0, self.header.id_size) {
                Ok(rs) => r matches Ok(v) && v@.len() == rs.len() && forall|i: int| 0 <= i < rs.len() ==> #[trigger] v@[i]@ == rs[i],
                Err(e) => r == Err::<Vec<Record<'a>>, ParseError>(e),
            },
    {
        let mut it = self.records_iter();
        let ghost s = self.records@;
        let ghost id_size = self.header.id_size;
        let mut out: Vec<Record<'a>> = Vec::new();
        let ghost mut seen: Seq<RecordModel> = Seq::empty();
        proof {
            assert forall|rest: Seq<RecordModel>| #[trigger] seen.add(rest) == rest by {
                assert(seen.add(rest) =~= rest);
            }
        }
        loop
            invariant
                it.wf(),
                it.data@ == s,
                it.id_size == id_size,
                s == self.records@,
                id_size == self.header.id_size,
                out@.len() == seen.len(),
                forall|i: int| 0 <= i < seen.len() ==> #[trigger] out@[i]@ == seen[i],
                spec_records(s, 0, id_size) == match spec_records(s, it.pos as int, id_size) {
                    Ok(rest) => Ok::<Seq<RecordModel>, ParseError>(seen.add(rest)),
                    Err(e) => Err(e),
                },
            decreases s.len() - it.pos,
        {
            match it.next() {
                None => {
                    proof {
                        assert(seen.add(Seq::<RecordModel>::empty()) =~= seen);
                    }
                    return Ok(out);
                },
                Some(Err(e)) => {
                    return Err(e);
                },
                Some(Ok(rec)) => {
                    let ghost seen_before = seen;
                    out.push(rec);
                    proof {
                        seen = seen.push(rec@);
                        assert forall|rest: Seq<RecordModel>| #[trigger] seen_before.add(seq![rec@].add(rest)) == seen.add(rest) by {
                            assert(seen_before.add(seq![rec@].add(rest)) =~= seen.add(rest));
                        }
                    }
                },
            }
        }
    }
}

/// Reads the header of an hprof; the records that follow are read on demand.
pub fn parse_hprof<'a>(input: &'a [u8]) -> (r: Result<Hprof<'a>, ParseError>)
    ensures
        match r {
            Ok(h) => spec_header(input@) matches Ok((m, e)) && h.header@ == m
                && h.records@ == input@.subrange(e, input@.len() as int),
            Err(err) => spec_header(input@) == Err::<(HeaderModel, int), ParseError>(err),
        },
{
    let (header, e) = Header::parse(input)?;
    Ok(Hprof { header, records: &input[e..input.len()] })
}

} // verus!
