use vstd::prelude::*;

use vstd::utf8::{decode_utf8, valid_utf8};

use crate::iso_8211::error::Iso8211Error;
use crate::misc::parser::{lemma_span_end_is, ne_pred, span_end};

verus! {

/// A position-tracking reader over a chart record held in memory.
pub struct Parser {
    data: Vec<u8>,
    index: usize,
}

/// The outcome and final position of matching the expected bytes `bs`
/// against `s` at position `i`: each byte is consumed and compared in turn,
/// a mismatch reports the expected byte, and running out of input ends the
/// read early.
pub open spec fn spec_expect_seq(s: Seq<u8>, i: int, bs: Seq<u8>) -> (Result<
    (),
    Iso8211Error,
>, int)
    decreases bs.len(),
{
    if bs.len() == 0 {
        (Ok(()), i)
    } else if i >= s.len() {
        (Err(Iso8211Error::UnexpectedEof), i)
    } else if s[i] == bs[0] {
        spec_expect_seq(s, i + 1, bs.skip(1))
    } else {
        (Err(Iso8211Error::UnexpectedByte(bs[0])), i + 1)
    }
}

impl Parser {
    /// The underlying record bytes.
    pub closed spec fn bytes(self) -> Seq<u8> {
        self.data@
    }

    /// The current read position.
    pub closed spec fn pos(self) -> int {
        self.index as int
    }

    /// The read position never passes the end of the record.
    pub open spec fn wf(self) -> bool {
        0 <= self.pos() <= self.bytes().len()
    }

    pub fn new(data: Vec<u8>) -> (p: Self)
        ensures
            p.bytes() == data@,
            p.pos() == 0,
            p.wf(),
    {
        Self { data, index: 0 }
    }

    /// Consumes and returns one byte; fails at the end of the record.
    pub fn next(&mut self) -> (r: Result<u8, Iso8211Error>)
        requires
            old(self).wf(),
        ensures
            final(self).wf(),
            final(self).bytes() == old(self).bytes(),
            old(self).pos() < old(self).bytes().len() ==> {
                &&& r == Ok::<u8, Iso8211Error>(old(self).bytes()[old(self).pos()])
                &&& final(self).pos() == old(self).pos() + 1
            },
            old(self).pos() == old(self).bytes().len() ==> {
                &&& r == Err::<u8, Iso8211Error>(Iso8211Error::UnexpectedEof)
                &&& final(self).pos() == old(self).pos()
            },
    {
        if self.index >= self.data.len() {
            return Err(Iso8211Error::UnexpectedEof);
        }
        let out = self.data[self.index];
        self.index = self.index + 1;
        Ok(out)
    }

    /// Non-consuming lookahead; fails at the end of the record.
    pub fn peek(&self) -> (r: Result<u8, Iso8211Error>)
        requires
            self.wf(),
        ensures
            r == if self.pos() < self.bytes().len() {
                Ok::<u8, Iso8211Error>(self.bytes()[self.pos()])
            } else {
                Err::<u8, Iso8211Error>(Iso8211Error::UnexpectedEof)
            },
    {
        if self.index >= self.data.len() {
            return Err(Iso8211Error::UnexpectedEof);
        }
        Ok(self.data[self.index])
    }

    /// Reports whether the whole record has been consumed.
    pub fn is_eof(&self) -> (r: Result<bool, Iso8211Error>)
        requires
            self.wf(),
        ensures
            r == Ok::<bool, Iso8211Error>(self.pos() == self.bytes().len()),
    {
        Ok(self.index == self.data.len())
    }

    /// Consumes up to and including the first occurrence of `byte` and
    /// returns the bytes before it; consumes everything and fails if it
    /// never occurs.
    pub fn take_until(&mut self, byte: u8) -> (r: Result<Vec<u8>, Iso8211Error>)
        requires
            old(self).wf(),
        ensures
            final(self).wf(),
            final(self).bytes() == old(self).bytes(),
            ({
                let j = span_end(old(self).bytes(), old(self).pos(), ne_pred(byte));
                if j < old(self).bytes().len() {
                    &&& r matches Ok(out) && out@ == old(self).bytes().subrange(
                        old(self).pos(),
                        j,
                    )
                    &&& final(self).pos() == j + 1
                } else {
                    &&& r matches Err(e) && e == Iso8211Error::UnexpectedEof
                    &&& final(self).pos() == old(self).bytes().len()
                }
            }),
    {
        let ghost s = self.bytes();
        let ghost i0 = self.pos();
        let mut buf: Vec<u8> = Vec::new();
        proof {
            assert(s.subrange(i0, i0) =~= Seq::<u8>::empty());
        }
        while self.index < self.data.len() && self.data[self.index] != byte
            invariant
                self.wf(),
                self.bytes() == s,
                i0 <= self.pos() <= s.len(),
                forall|j: int| i0 <= j < self.pos() ==> #[trigger] s[j] != byte,
                buf@ == s.subrange(i0, self.pos()),
            decreases s.len() - self.pos(),
        {
            proof {
                assert(s.subrange(i0, self.pos() + 1) =~= s.subrange(i0, self.pos()).push(
                    s[self.pos()],
                ));
            }
            buf.push(self.data[self.index]);
            self.index = self.index + 1;
        }
        proof {
            lemma_span_end_is(s, i0, self.pos(), ne_pred(byte));
        }
        if self.index == self.data.len() {
            return Err(Iso8211Error::UnexpectedEof);
        }
        self.index = self.index + 1;
        Ok(buf)
    }

    /// Consumes one byte and requires it to equal `byte`; the byte is
    /// consumed even on a mismatch, which then reports the expected byte.
    pub fn expect(&mut self, byte: u8) -> (r: Result<(), Iso8211Error>)
        requires
            old(self).wf(),
        ensures
            final(self).wf(),
            final(self).bytes() == old(self).bytes(),
            old(self).pos() < old(self).bytes().len() ==> {
                &&& final(self).pos() == old(self).pos() + 1
                &&& r == if old(self).bytes()[old(self).pos()] == byte {
                    Ok::<(), Iso8211Error>(())
                } else {
                    Err::<(), Iso8211Error>(Iso8211Error::UnexpectedByte(byte))
                }
            },
            old(self).pos() == old(self).bytes().len() ==> {
                &&& final(self).pos() == old(self).pos()
                &&& r == Err::<(), Iso8211Error>(Iso8211Error::UnexpectedEof)
            },
    {
        match self.next() {
            Ok(b) => {
                if b != byte {
                    Err(Iso8211Error::UnexpectedByte(byte))
                } else {
                    Ok(())
                }
            },
            Err(e) => Err(e),
        }
    }

    /// Consumes one byte per expected byte and requires each to match.
    pub fn expect_bytes(&mut self, bytes: &[u8]) -> (r: Result<(), Iso8211Error>)
        requires
            old(self).wf(),
        ensures
            final(self).wf(),
            final(self).bytes() == old(self).bytes(),
            ({
                let (res, ni) = spec_expect_seq(old(self).bytes(), old(self).pos(), bytes@);
                r == res && final(self).pos() == ni
            }),
    {
        let ghost s = self.bytes();
        let mut i: usize = 0;
        proof {
            assert(bytes@.skip(0) =~= bytes@);
        }
        while i < bytes.len()
            invariant
                self.wf(),
                self.bytes() == s,
                0 <= i <= bytes.len(),
                spec_expect_seq(s, old(self).pos(), bytes@) == spec_expect_seq(
                    s,
                    self.pos(),
                    bytes@.skip(i as int),
                ),
            decreases bytes.len() - i,
        {
            let ghost rest = bytes@.skip(i as int);
            match self.next() {
                Ok(b) => {
                    proof {
                        assert(rest[0] == bytes@[i as int]);
                        assert(rest.skip(1) =~= bytes@.skip(i as int + 1));
                    }
                    if b != bytes[i] {
                        return Err(Iso8211Error::UnexpectedByte(bytes[i]));
                    }
                },
                Err(e) => {
                    proof {
                        assert(rest[0] == bytes@[i as int]);
                    }
                    return Err(e);
                },
            }
            i = i + 1;
        }
        proof {
            assert(bytes@.skip(i as int) =~= Seq::<u8>::empty());
        }
        Ok(())
    }

    /// Consumes exactly `n` bytes and returns them; fails without
    /// consuming if fewer remain.
    pub fn read_bytes(&mut self, n: usize) -> (r: Result<Vec<u8>, Iso8211Error>)
        requires
            old(self).wf(),
        ensures
            final(self).wf(),
            final(self).bytes() == old(self).bytes(),
            if old(self).pos() + n <= old(self).bytes().len() {
                &&& r matches Ok(out) && out@ == old(self).bytes().subrange(
                    old(self).pos(),
                    old(self).pos() + n,
                )
                &&& final(self).pos() == old(self).pos() + n
            } else {
                &&& r matches Err(e) && e == Iso8211Error::UnexpectedEof
                &&& final(self).pos() == old(self).pos()
            },
    {
        let ghost s = self.bytes();
        let ghost i0 = self.pos();
        if n > self.data.len() - self.index {
            return Err(Iso8211Error::UnexpectedEof);
        }
        let mut buf: Vec<u8> = Vec::new();
        let mut i: usize = 0;
        proof {
            assert(s.subrange(i0, i0) =~= Seq::<u8>::empty());
        }
        while i < n
            invariant
                self.wf(),
                self.bytes() == s,
                0 <= i <= n,
                self.pos() == i0 + i,
                i0 + n <= s.len(),
                buf@ == s.subrange(i0, self.pos()),
            decreases n - i,
        {
            proof {
                assert(s.subrange(i0, self.pos() + 1) =~= s.subrange(i0, self.pos()).push(
                    s[self.pos()],
                ));
            }
            buf.push(self.data[self.index]);
            self.index = self.index + 1;
            i = i + 1;
        }
        Ok(buf)
    }

    /// Reads exactly `len` bytes as UTF-8 text; fails without consuming if
    /// fewer remain, and reports text that is not UTF-8 after consuming
    /// it.
    pub fn read_string(&mut self, len: usize) -> (r: Result<String, Iso8211Error>)
        requires
            old(self).wf(),
        ensures
            final(self).wf(),
            final(self).bytes() == old(self).bytes(),
            if old(self).pos() + len <= old(self).bytes().len() {
                let cap = old(self).bytes().subrange(old(self).pos(), old(self).pos() + len);
                &&& final(self).pos() == old(self).pos() + len
                &&& if valid_utf8(cap) {
                    r matches Ok(st) && st@ == decode_utf8(cap)
                } else {
                    r == Err::<String, Iso8211Error>(Iso8211Error::NonUtf8)
                }
            } else {
                &&& r matches Err(e) && e == Iso8211Error::UnexpectedEof
                &&& final(self).pos() == old(self).pos()
            },
    {
        let buf = match self.read_bytes(len) {
            Ok(v) => v,
            Err(e) => {
                return Err(e);
            },
        };
        bytes_to_string(buf)
    }
}

/// The outcome and final position of reading `n` bytes of decimal text at
/// `i`: nothing is consumed when fewer bytes remain, and text that is not
/// a number is reported after consuming it.
pub open spec fn spec_read_u32(s: Seq<u8>, i: int, n: int) -> (Result<u32, Iso8211Error>, int) {
    if i + n > s.len() {
        (Err(Iso8211Error::UnexpectedEof), i)
    } else {
        (crate::iso_8211::leader::spec_u32_text(s.subrange(i, i + n)), i + n)
    }
}

/// Reads `n` bytes as an unsigned decimal number.
pub(crate) fn read_u32(parser: &mut Parser, n: usize) -> (r: Result<u32, Iso8211Error>)
    requires
        old(parser).wf(),
    ensures
        final(parser).wf(),
        final(parser).bytes() == old(parser).bytes(),
        ({
            let (res, ni) = spec_read_u32(old(parser).bytes(), old(parser).pos(), n as int);
            r == res && final(parser).pos() == ni
        }),
{
    let buf = match parser.read_bytes(n) {
        Ok(v) => v,
        Err(e) => {
            return Err(e);
        },
    };
    crate::iso_8211::leader::parse_u32_text(buf.as_slice())
}

/// The outcome and final position of reading one digit byte at `i` as its
/// value.
pub open spec fn spec_read_digit(s: Seq<u8>, i: int) -> (Result<u8, Iso8211Error>, int) {
    if i >= s.len() {
        (Err(Iso8211Error::UnexpectedEof), i)
    } else if !crate::misc::parser::is_digit(s[i]) {
        (Err(Iso8211Error::InvalidNumber), i + 1)
    } else {
        (Ok((s[i] - 0x30) as u8), i + 1)
    }
}

/// Reads one digit byte as its value.
pub(crate) fn read_digit(parser: &mut Parser) -> (r: Result<u8, Iso8211Error>)
    requires
        old(parser).wf(),
    ensures
        final(parser).wf(),
        final(parser).bytes() == old(parser).bytes(),
        ({
            let (res, ni) = spec_read_digit(old(parser).bytes(), old(parser).pos());
            r == res && final(parser).pos() == ni
        }),
{
    match parser.next() {
        Ok(b) => {
            if 0x30 <= b && b <= 0x39 {
                Ok(b - 0x30)
            } else {
                Err(Iso8211Error::InvalidNumber)
            }
        },
        Err(e) => Err(e),
    }
}

/// Relies on `String::from_utf8`: it succeeds exactly on the valid UTF-8
/// byte sequences and yields their decoding.
#[verifier::external_body]
pub(crate) fn bytes_to_string(v: Vec<u8>) -> (r: Result<String, Iso8211Error>)
    ensures
        match r {
            Ok(s) => valid_utf8(v@) && s@ == decode_utf8(v@),
            Err(e) => !valid_utf8(v@) && e == Iso8211Error::NonUtf8,
        },
{
    String::from_utf8(v).map_err(|_| Iso8211Error::NonUtf8)
}

} // verus!
