//! The common "read a declared number of items from a slice" pattern.
use vstd::prelude::*;

use crate::ParseError;

verus! {

/// Reads one item of a sequence at a position of a slice.
pub trait ElementParser {
    type Item;

    /// What reading at `pos` of `s` gives: the item and the position just past it.
    spec fn spec_parse(&self, s: Seq<u8>, pos: int) -> Result<(Self::Item, int), ParseError>;

    fn parse(&self, s: &[u8], pos: usize) -> (r: Result<(Self::Item, usize), ParseError>)
        requires
            pos <= s@.len(),
        ensures
            match r {
                Ok((v, e)) => self.spec_parse(s@, pos as int) == Ok::<(Self::Item, int), ParseError>((v, e as int))
                    && pos < e <= s@.len(),
                Err(err) => self.spec_parse(s@, pos as int) == Err::<(Self::Item, int), ParseError>(err),
            },
    ;
}

/// The position just past `count` items read one after the other from `pos`.
pub open spec fn spec_skip<P: ElementParser>(p: P, s: Seq<u8>, pos: int, count: nat) -> Result<int, ParseError>
    decreases count,
{
    if count == 0 {
        Ok(pos)
    } else {
        match p.spec_parse(s, pos) {
            Ok((_, e)) => spec_skip(p, s, e, (count - 1) as nat),
            Err(err) => Err(err),
        }
    }
}

/// The `count` items read one after the other from `pos`, with the position after them.
pub open spec fn spec_items<P: ElementParser>(p: P, s: Seq<u8>, pos: int, count: nat) -> Result<(Seq<P::Item>, int), ParseError>
    decreases count,
{
    if count == 0 {
        Ok((Seq::empty(), pos))
    } else {
        match p.spec_parse(s, pos) {
            Ok((v, e)) => match spec_items(p, s, e, (count - 1) as nat) {
                Ok((rest, end)) => Ok((seq![v].add(rest), end)),
                Err(err) => Err(err),
            },
            Err(err) => Err(err),
        }
    }
}

/// What reading all items of an iterator that stands at `pos` gives: the items, or the
/// first error, or [`ParseError::TrailingBytes`] where bytes are left after them.
pub open spec fn spec_collect<P: ElementParser>(p: P, s: Seq<u8>, pos: int, count: nat) -> Result<Seq<P::Item>, ParseError> {
    match spec_items(p, s, pos, count) {
        Ok((items, end)) => if end == s.len() {
            Ok(items)
        } else {
            Err(ParseError::TrailingBytes)
        },
        Err(err) => Err(err),
    }
}

/// Reads past `count` items from `pos` and returns the position after them.
pub fn skip_items<P: ElementParser>(p: &P, s: &[u8], pos: usize, count: u32) -> (r: Result<usize, ParseError>)
    requires
        pos <= s@.len(),
    ensures
        match r {
            Ok(e) => spec_skip(*p, s@, pos as int, count as nat) == Ok::<int, ParseError>(e as int) && pos <= e <= s@.len(),
            Err(err) => spec_skip(*p, s@, pos as int, count as nat) == Err::<int, ParseError>(err),
        },
{
    let mut cur: usize = pos;
    let mut left: u32 = count;
    while left > 0
        invariant
            pos <= cur <= s@.len(),
            spec_skip(*p, s@, pos as int, count as nat) == spec_skip(*p, s@, cur as int, left as nat),
        decreases left,
    {
        match p.parse(s, cur) {
            Ok((_, e)) => {
                cur = e;
                left = left - 1;
            },
            Err(err) => return Err(err),
        }
    }
    Ok(cur)
}

/// Lazily reads `num_remaining` items, one after the other, from `data[pos..]`.
///
/// When all items are read the slice must be used up: bytes left over are reported once
/// as [`ParseError::TrailingBytes`].
pub struct ParsingIterator<'a, P: ElementParser> {
    pub parser: P,
    pub num_remaining: u32,
    pub data: &'a [u8],
    pub pos: usize,
}

impl<'a, P: ElementParser> ParsingIterator<'a, P> {
    pub open spec fn wf(&self) -> bool {
        self.pos <= self.data@.len()
    }

    /// The bytes that are still to be read.
    pub open spec fn rest(&self) -> Seq<u8> {
        self.data@.subrange(self.pos as int, self.data@.len() as int)
    }

    pub fn new(parser: P, data: &'a [u8], num_remaining: u32) -> (r: Self)
        ensures
            r.wf(),
            r.parser == parser,
            r.data == data,
            r.pos == 0,
            r.num_remaining == num_remaining,
    {
        ParsingIterator { parser, num_remaining, data, pos: 0 }
    }

    /// The next item, `None` once the declared number of items has been read and the
    /// slice is used up.
    pub fn next(&mut self) -> (r: Option<Result<P::Item, ParseError>>)
        requires
            old(self).wf(),
        ensures
            final(self).wf(),
            final(self).parser == old(self).parser,
            final(self).data == old(self).data,
            old(self).num_remaining == 0 && old(self).pos == old(self).data@.len() ==> r is None
                && *final(self) == *old(self),
            old(self).num_remaining == 0 && old(self).pos < old(self).data@.len() ==> r
                == Some(Err::<P::Item, ParseError>(ParseError::TrailingBytes))
                && final(self).pos == old(self).data@.len() && final(self).num_remaining == 0,
            old(self).num_remaining > 0 ==> match old(self).parser.spec_parse(old(self).data@, old(self).pos as int) {
                Ok((v, e)) => r == Some(Ok::<P::Item, ParseError>(v)) && final(self).pos == e
                    && final(self).num_remaining == old(self).num_remaining - 1,
                Err(err) => r == Some(Err::<P::Item, ParseError>(err)) && *final(self) == *old(self),
            },
    {
        if self.num_remaining == 0 {
            if self.pos == self.data.len() {
                return None;
            }
            self.pos = self.data.len();
            return Some(Err(ParseError::TrailingBytes));
        }
        match self.parser.parse(self.data, self.pos) {
            Ok((v, e)) => {
                self.pos = e;
                self.num_remaining = self.num_remaining - 1;
                Some(Ok(v))
            },
            Err(err) => Some(Err(err)),
        }
    }

    /// Reads all remaining items.
    pub fn collect_all(&mut self) -> (r: Result<Vec<P::Item>, ParseError>)
        requires
            old(self).wf(),
        ensures
            match spec_collect(old(self).parser, old(self).data@, old(self).pos as int, old(self).num_remaining as nat) {
                Ok(items) => r matches Ok(v) && v@ == items,
                Err(err) => r matches Err(e) && e == err,
            },
    {
        let ghost p = self.parser;
        let ghost s = self.data@;
        let ghost pos0 = self.pos as int;
        let ghost n0 = self.num_remaining as nat;
        let mut out: Vec<P::Item> = Vec::new();
        proof {
            assert forall|rest: Seq<P::Item>| #[trigger] out@.add(rest) == rest by {
                assert(out@.add(rest) =~= rest);
            }
        }
        while self.num_remaining > 0
            invariant
                self.wf(),
                self.parser == p,
                self.data@ == s,
                p == old(self).parser,
                s == old(self).data@,
                pos0 == old(self).pos,
                n0 == old(self).num_remaining,
                spec_items(p, s, pos0, n0) == match spec_items(p, s, self.pos as int, self.num_remaining as nat) {
                    Ok((rest, end)) => Ok::<(Seq<P::Item>, int), ParseError>((out@.add(rest), end)),
                    Err(err) => Err(err),
                },
            decreases self.num_remaining,
        {
            let ghost before = out@;
            let ghost pos_before = self.pos as int;
            let ghost n_before = self.num_remaining as nat;
            match self.parser.parse(self.data, self.pos) {
                Ok((v, e)) => {
                    self.pos = e;
                    self.num_remaining = self.num_remaining - 1;
                    out.push(v);
                    proof {
                        assert forall|rest: Seq<P::Item>| #[trigger] before.add(seq![v].add(rest)) == out@.add(rest) by {
                            assert(before.add(seq![v].add(rest)) =~= out@.add(rest));
                        }
                    }
                },
                Err(err) => {
                    assert(spec_items(p, s, pos_before, n_before) == Err::<(Seq<P::Item>, int), ParseError>(err));
                    assert(spec_items(p, s, pos0, n0) == Err::<(Seq<P::Item>, int), ParseError>(err));
                    assert(spec_collect(p, s, pos0, n0) == Err::<Seq<P::Item>, ParseError>(err));
                    return Err(err);
                },
            }
        }
        proof {
            assert(out@.add(Seq::<P::Item>::empty()) =~= out@);
        }
        if self.pos != self.data.len() {
            return Err(ParseError::TrailingBytes);
        }
        Ok(out)
    }
}

} // verus!
