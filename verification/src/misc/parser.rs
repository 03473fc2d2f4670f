use vstd::prelude::*;

use crate::error::ParseError;

verus! {

/// `b` is an ASCII decimal digit.
pub open spec fn is_digit(b: u8) -> bool {
    0x30 <= b <= 0x39
}

/// `b` is an ASCII sign character.
pub open spec fn is_sign(b: u8) -> bool {
    b == 0x2B || b == 0x2D
}

/// `b` may appear in the text of a signed integer.
pub open spec fn is_int_byte(b: u8) -> bool {
    is_digit(b) || is_sign(b)
}

/// `b` may appear in the text of a decimal number, as the lexical capture of
/// a decimal field accepts it.
pub open spec fn is_decimal_byte(b: u8) -> bool {
    is_int_byte(b) || b == 0x2E || b == 0x65 || b == 0x45
}

/// `b` is an ASCII hexadecimal digit.
pub open spec fn is_hex_digit(b: u8) -> bool {
    is_digit(b) || (0x61 <= b <= 0x66) || (0x41 <= b <= 0x46)
}

/// The value of the hexadecimal digit `b`.
pub open spec fn hex_val(b: u8) -> int {
    if is_digit(b) {
        b - 0x30
    } else if 0x61 <= b <= 0x66 {
        b - 0x61 + 10
    } else {
        b - 0x41 + 10
    }
}

/// The digit predicate, as a value that the span functions share.
pub open spec fn digit_pred() -> spec_fn(u8) -> bool {
    |b: u8| is_digit(b)
}

/// The signed-integer byte predicate, as a value.
pub open spec fn int_byte_pred() -> spec_fn(u8) -> bool {
    |b: u8| is_int_byte(b)
}

/// The decimal byte predicate, as a value.
pub open spec fn decimal_byte_pred() -> spec_fn(u8) -> bool {
    |b: u8| is_decimal_byte(b)
}

/// The predicate holding of every byte equal to `c`, as a value.
pub open spec fn eq_pred(c: u8) -> spec_fn(u8) -> bool {
    |b: u8| b == c
}

/// The predicate holding of every byte other than `c`, as a value.
pub open spec fn ne_pred(c: u8) -> spec_fn(u8) -> bool {
    |b: u8| b != c
}

/// The position of the first byte at or after `i` that fails `p`, or the end
/// of `s` if every later byte satisfies `p`.
pub open spec fn span_end(s: Seq<u8>, i: int, p: spec_fn(u8) -> bool) -> int
    decreases s.len() - i,
{
    if i >= s.len() {
        s.len() as int
    } else if p(s[i]) {
        span_end(s, i + 1, p)
    } else {
        i
    }
}

/// A position bounding a run of bytes satisfying `p`, with a failing byte or
/// the end after it, is the end of the span.
pub proof fn lemma_span_end_is(s: Seq<u8>, i: int, m: int, p: spec_fn(u8) -> bool)
    requires
        0 <= i <= m <= s.len(),
        forall|j: int| i <= j < m ==> p(#[trigger] s[j]),
        m < s.len() ==> !p(s[m]),
    ensures
        span_end(s, i, p) == m,
    decreases m - i,
{
    if i < m {
        lemma_span_end_is(s, i + 1, m, p);
    }
}

/// The decimal value of a sequence of digit bytes.
pub open spec fn dec_val(s: Seq<u8>) -> int
    decreases s.len(),
{
    if s.len() == 0 {
        0
    } else {
        dec_val(s.drop_last()) * 10 + (s.last() - 0x30)
    }
}

/// The value of a digit run is non-negative and grows with each appended
/// digit.
pub proof fn lemma_dec_val_nonneg(s: Seq<u8>)
    requires
        forall|j: int| 0 <= j < s.len() ==> is_digit(#[trigger] s[j]),
    ensures
        dec_val(s) >= 0,
    decreases s.len(),
{
    if s.len() > 0 {
        lemma_dec_val_nonneg(s.drop_last());
    }
}

/// The position after the auto-consume separator step: one byte is consumed
/// when a separator is configured and any byte remains.
pub open spec fn spec_skip_sep(s: Seq<u8>, i: int, has_sep: bool) -> int {
    if has_sep && i < s.len() {
        i + 1
    } else {
        i
    }
}

/// The outcome and final position of matching the expected bytes `bs`
/// against `s` at position `i`: each byte is consumed and compared in turn,
/// a mismatch reports the expected byte, and running out of input reports an
/// incomplete field.
pub open spec fn spec_expect_bytes(s: Seq<u8>, i: int, bs: Seq<u8>) -> (Result<
    (),
    ParseError,
>, int)
    decreases bs.len(),
{
    if bs.len() == 0 {
        (Ok(()), i)
    } else if i >= s.len() {
        (Err(ParseError::Incomplete), i)
    } else if s[i] == bs[0] {
        spec_expect_bytes(s, i + 1, bs.skip(1))
    } else {
        (Err(ParseError::UnexpectedChar(bs[0] as char)), i + 1)
    }
}

/// The value of an unsigned integer field text: the capture must be a
/// non-empty run of digits whose value fits below `max`.
pub open spec fn spec_uint_text(s: Seq<u8>, max: int) -> Result<int, ParseError> {
    if s.len() > 0 && (forall|j: int| 0 <= j < s.len() ==> is_digit(#[trigger] s[j])) && dec_val(s)
        <= max {
        Ok(dec_val(s))
    } else {
        Err(ParseError::InvalidNumber)
    }
}

/// The outcome and final position of decoding a `u8` field at `i`: the
/// maximal digit run is captured, its value must fit, and the separator step
/// follows.
pub open spec fn spec_u8_field(s: Seq<u8>, i: int, has_sep: bool) -> (Result<u8, ParseError>, int) {
    let j = span_end(s, i, digit_pred());
    let r = match spec_uint_text(s.subrange(i, j), 255) {
        Ok(v) => Ok(v as u8),
        Err(e) => Err(e),
    };
    (r, spec_skip_sep(s, j, has_sep))
}

/// The outcome and final position of decoding a `u16` field at `i`.
pub open spec fn spec_u16_field(s: Seq<u8>, i: int, has_sep: bool) -> (Result<
    u16,
    ParseError,
>, int) {
    let j = span_end(s, i, digit_pred());
    let r = match spec_uint_text(s.subrange(i, j), 65535) {
        Ok(v) => Ok(v as u16),
        Err(e) => Err(e),
    };
    (r, spec_skip_sep(s, j, has_sep))
}

/// The value of a signed integer field text: an optional single sign, then a
/// non-empty run of digits, with the signed value in the range of `i8`.
pub open spec fn spec_i8_text(s: Seq<u8>) -> Result<i8, ParseError> {
    if s.len() == 0 {
        Err(ParseError::InvalidNumber)
    } else {
        let neg = s[0] == 0x2D;
        let digits = if is_sign(s[0]) {
            s.subrange(1, s.len() as int)
        } else {
            s
        };
        match spec_uint_text(digits, if neg { 128 as int } else { 127 as int }) {
            Ok(v) => Ok((if neg { -v } else { v }) as i8),
            Err(e) => Err(e),
        }
    }
}

/// The outcome and final position of decoding an `i8` field at `i`: the
/// maximal run of sign-or-digit bytes is captured.
pub open spec fn spec_i8_field(s: Seq<u8>, i: int, has_sep: bool) -> (Result<i8, ParseError>, int) {
    let j = span_end(s, i, int_byte_pred());
    (spec_i8_text(s.subrange(i, j)), spec_skip_sep(s, j, has_sep))
}

/// The unescaped form of a text field capture: `^HH` two-hex-digit escape
/// sequences decode to the named byte, every other byte stands for itself.
/// A truncated escape leaves the field incomplete; a malformed one fails as
/// an invalid number.
pub open spec fn spec_unescape(s: Seq<u8>) -> Result<Seq<u8>, ParseError>
    decreases s.len(),
{
    if s.len() == 0 {
        Ok(Seq::<u8>::empty())
    } else if s[0] == 0x5E {
        if s.len() < 3 {
            Err(ParseError::Incomplete)
        } else if is_hex_digit(s[1]) && is_hex_digit(s[2]) {
            match spec_unescape(s.skip(3)) {
                Ok(rest) => Ok(seq![(hex_val(s[1]) * 16 + hex_val(s[2])) as u8] + rest),
                Err(e) => Err(e),
            }
        } else {
            Err(ParseError::InvalidNumber)
        }
    } else {
        match spec_unescape(s.skip(1)) {
            Ok(rest) => Ok(seq![s[0]] + rest),
            Err(e) => Err(e),
        }
    }
}

/// The outcome and final position of decoding an escaped text field at `i`:
/// everything up to the next separator (or the end) is captured and
/// unescaped.
pub open spec fn spec_string_field(s: Seq<u8>, i: int, has_sep: bool) -> (Result<
    Seq<u8>,
    ParseError,
>, int) {
    let j = span_end(s, i, ne_pred(0x2C));
    (spec_unescape(s.subrange(i, j)), spec_skip_sep(s, j, has_sep))
}

/// A position-tracking view over an immutable byte buffer: the sole primitive
/// every decoder builds on.
///
/// A parser may be configured with an auto-consume separator (typically the
/// field separator `,`): after each typed field decode the parser consumes one
/// further byte if any remains, ignoring whether it matches, which lets the
/// sentence decoders chain field decodes without repeating
/// separator-consumption logic.
pub struct Parser<'a> {
    data: &'a [u8],
    index: usize,
    take_on_parse: Option<u8>,
}

impl<'a> Parser<'a> {
    /// The underlying buffer.
    pub closed spec fn bytes(self) -> Seq<u8> {
        self.data@
    }

    /// The current read position.
    pub closed spec fn pos(self) -> int {
        self.index as int
    }

    /// The configured auto-consume separator, if any.
    pub closed spec fn sep(self) -> Option<u8> {
        self.take_on_parse
    }

    /// The read position never passes the end of the buffer.
    pub open spec fn wf(self) -> bool {
        0 <= self.pos() <= self.bytes().len()
    }

    /// The buffer and separator configuration are never changed by reading.
    pub open spec fn same_stream(self, other: Self) -> bool {
        self.bytes() == other.bytes() && self.sep() == other.sep()
    }

    pub fn new(data: &'a [u8]) -> (p: Self)
        ensures
            p.bytes() == data@,
            p.pos() == 0,
            p.sep() is None,
            p.wf(),
    {
        Self { data, index: 0, take_on_parse: None }
    }

    /// Configures the separator consumed after each typed field decode.
    pub fn take_on_parse(self, c: u8) -> (p: Self)
        requires
            self.wf(),
        ensures
            p.bytes() == self.bytes(),
            p.pos() == self.pos(),
            p.sep() == Some(c),
            p.wf(),
    {
        Self { take_on_parse: Some(c), ..self }
    }

    /// Succeeds exactly when the whole buffer has been consumed.
    pub fn assert_empty(&self) -> (r: Result<(), ParseError>)
        requires
            self.wf(),
        ensures
            r == if self.pos() == self.bytes().len() {
                Ok::<(), ParseError>(())
            } else {
                Err::<(), ParseError>(ParseError::RemainingData)
            },
    {
        if self.index != self.data.len() {
            return Err(ParseError::RemainingData);
        }

        Ok(())
    }

    /// Consumes and returns one byte; fails at the end of the buffer.
    pub fn next(&mut self) -> (r: Result<u8, ParseError>)
        requires
            old(self).wf(),
        ensures
            final(self).wf(),
            final(self).same_stream(*old(self)),
            old(self).pos() < old(self).bytes().len() ==> {
                &&& r == Ok::<u8, ParseError>(old(self).bytes()[old(self).pos()])
                &&& final(self).pos() == old(self).pos() + 1
            },
            old(self).pos() == old(self).bytes().len() ==> {
                &&& r == Err::<u8, ParseError>(ParseError::Incomplete)
                &&& final(self).pos() == old(self).pos()
            },
    {
        if self.index >= self.data.len() {
            return Err(ParseError::Incomplete);
        }

        let out = self.data[self.index];
        self.index = self.index + 1;
        Ok(out)
    }

    /// Non-consuming lookahead; yields nothing at the end of the buffer.
    pub fn peek(&self) -> (r: Option<u8>)
        requires
            self.wf(),
        ensures
            r == if self.pos() < self.bytes().len() {
                Some(self.bytes()[self.pos()])
            } else {
                None::<u8>
            },
    {
        if self.index >= self.data.len() {
            return None;
        }

        Some(self.data[self.index])
    }

    /// Consumes exactly `n` bytes; fails if fewer remain.
    pub fn next_n(&mut self, n: usize) -> (r: Result<&'a [u8], ParseError>)
        requires
            old(self).wf(),
        ensures
            final(self).wf(),
            final(self).same_stream(*old(self)),
            if old(self).pos() + n <= old(self).bytes().len() {
                &&& r matches Ok(out) && out@ == old(self).bytes().subrange(
                    old(self).pos(),
                    old(self).pos() + n,
                )
                &&& final(self).pos() == old(self).pos() + n
            } else {
                &&& r matches Err(e) && e == ParseError::Incomplete
                &&& final(self).pos() == old(self).pos()
            },
    {
        if n > self.data.len() - self.index {
            return Err(ParseError::Incomplete);
        }

        let out = vstd::slice::slice_subrange(self.data, self.index, self.index + n);
        self.index = self.index + n;
        Ok(out)
    }

    /// Advances by `n` bytes, stopping at the end of the buffer.
    pub fn skip(&mut self, n: usize)
        requires
            old(self).wf(),
        ensures
            final(self).wf(),
            final(self).same_stream(*old(self)),
            final(self).pos() == if old(self).pos() + n <= old(self).bytes().len() {
                old(self).pos() + n
            } else {
                old(self).bytes().len() as int
            },
    {
        if n > self.data.len() - self.index {
            self.index = self.data.len();
        } else {
            self.index = self.index + n;
        }
    }

    /// Consumes one byte and requires it to equal `c`; the byte is consumed
    /// even on a mismatch, which then reports the expected byte.
    pub fn expect(&mut self, c: u8) -> (r: Result<(), ParseError>)
        requires
            old(self).wf(),
        ensures
            final(self).wf(),
            final(self).same_stream(*old(self)),
            old(self).pos() < old(self).bytes().len() ==> {
                &&& final(self).pos() == old(self).pos() + 1
                &&& r == if old(self).bytes()[old(self).pos()] == c {
                    Ok::<(), ParseError>(())
                } else {
                    Err::<(), ParseError>(ParseError::UnexpectedChar(c as char))
                }
            },
            old(self).pos() == old(self).bytes().len() ==> {
                &&& final(self).pos() == old(self).pos()
                &&& r == Err::<(), ParseError>(ParseError::Incomplete)
            },
    {
        match self.next() {
            Ok(b) => {
                if b != c {
                    Err(ParseError::UnexpectedChar(c as char))
                } else {
                    Ok(())
                }
            },
            Err(e) => Err(e),
        }
    }

    /// Consumes the run of bytes equal to `c` starting at the position.
    pub fn skip_while(&mut self, c: u8)
        requires
            old(self).wf(),
        ensures
            final(self).wf(),
            final(self).same_stream(*old(self)),
            final(self).pos() == span_end(old(self).bytes(), old(self).pos(), eq_pred(c)),
    {
        let ghost s = self.bytes();
        let ghost i0 = self.pos();
        let ghost sep0 = self.sep();
        while self.index < self.data.len() && self.data[self.index] == c
            invariant
                self.wf(),
                self.bytes() == s,
                self.sep() == sep0,
                i0 <= self.pos() <= s.len(),
                forall|j: int| i0 <= j < self.pos() ==> #[trigger] s[j] == c,
            decreases s.len() - self.pos(),
        {
            self.index = self.index + 1;
        }
        proof {
            lemma_span_end_is(s, i0, self.pos(), eq_pred(c));
        }
    }

    /// Consumes up to and including the first occurrence of `c` and returns
    /// the bytes before it; consumes everything and fails if `c` never
    /// occurs.
    pub fn take_until(&mut self, c: u8) -> (r: Result<&'a [u8], ParseError>)
        requires
            old(self).wf(),
        ensures
            final(self).wf(),
            final(self).same_stream(*old(self)),
            ({
                let j = span_end(old(self).bytes(), old(self).pos(), ne_pred(c));
                if j < old(self).bytes().len() {
                    &&& r matches Ok(out) && out@ == old(self).bytes().subrange(
                        old(self).pos(),
                        j,
                    )
                    &&& final(self).pos() == j + 1
                } else {
                    &&& r matches Err(e) && e == ParseError::Incomplete
                    &&& final(self).pos() == old(self).bytes().len()
                }
            }),
    {
        let ghost s = self.bytes();
        let ghost i0 = self.pos();
        let ghost sep0 = self.sep();
        let start = self.index;
        while self.index < self.data.len() && self.data[self.index] != c
            invariant
                self.wf(),
                self.bytes() == s,
                self.sep() == sep0,
                i0 <= self.pos() <= s.len(),
                start == i0,
                forall|j: int| i0 <= j < self.pos() ==> #[trigger] s[j] != c,
            decreases s.len() - self.pos(),
        {
            self.index = self.index + 1;
        }
        proof {
            lemma_span_end_is(s, i0, self.pos(), ne_pred(c));
        }
        if self.index == self.data.len() {
            return Err(ParseError::Incomplete);
        }
        let out = vstd::slice::slice_subrange(self.data, start, self.index);
        self.index = self.index + 1;
        Ok(out)
    }

    /// Consumes up to but not including the first occurrence of `c`, or to
    /// the end of the buffer, and returns the bytes passed over.
    pub fn take_until_or_end(&mut self, c: u8) -> (out: &'a [u8])
        requires
            old(self).wf(),
        ensures
            final(self).wf(),
            final(self).same_stream(*old(self)),
            final(self).pos() == span_end(old(self).bytes(), old(self).pos(), ne_pred(c)),
            out@ == old(self).bytes().subrange(old(self).pos(), final(self).pos()),
    {
        let ghost s = self.bytes();
        let ghost i0 = self.pos();
        let ghost sep0 = self.sep();
        let start = self.index;
        while self.index < self.data.len() && self.data[self.index] != c
            invariant
                self.wf(),
                self.bytes() == s,
                self.sep() == sep0,
                i0 <= self.pos() <= s.len(),
                start == i0,
                forall|j: int| i0 <= j < self.pos() ==> #[trigger] s[j] != c,
            decreases s.len() - self.pos(),
        {
            self.index = self.index + 1;
        }
        proof {
            lemma_span_end_is(s, i0, self.pos(), ne_pred(c));
        }
        vstd::slice::slice_subrange(self.data, start, self.index)
    }

    /// Consumes bytes while `f` accepts them and returns the bytes passed
    /// over; the caller's knowledge of the result flows through
    /// `call_ensures` of `f`.
    pub fn take_while<F: Fn(u8) -> bool>(&mut self, f: F) -> (out: &'a [u8])
        requires
            old(self).wf(),
            forall|b: u8| #[trigger] f.requires((b,)),
        ensures
            final(self).wf(),
            final(self).same_stream(*old(self)),
            old(self).pos() <= final(self).pos() <= old(self).bytes().len(),
            out@ == old(self).bytes().subrange(old(self).pos(), final(self).pos()),
            forall|j: int|
                old(self).pos() <= j < final(self).pos() ==> f.ensures(
                    (#[trigger] old(self).bytes()[j],),
                    true,
                ),
            final(self).pos() < old(self).bytes().len() ==> f.ensures(
                (old(self).bytes()[final(self).pos()],),
                false,
            ),
    {
        let ghost s = self.bytes();
        let ghost i0 = self.pos();
        let ghost sep0 = self.sep();
        let start = self.index;
        #[verifier::loop_isolation(true)]
        loop
            invariant
                self.wf(),
                self.bytes() == s,
                self.sep() == sep0,
                i0 <= self.pos() <= s.len(),
                start == i0,
                forall|b: u8| #[trigger] f.requires((b,)),
                forall|j: int| i0 <= j < self.pos() ==> f.ensures((#[trigger] s[j],), true),
            ensures
                self.wf(),
                self.bytes() == s,
                self.sep() == sep0,
                i0 <= self.pos() <= s.len(),
                start == i0,
                forall|j: int| i0 <= j < self.pos() ==> f.ensures((#[trigger] s[j],), true),
                self.pos() < s.len() ==> f.ensures((s[self.pos()],), false),
            decreases s.len() - self.pos(),
        {
            if self.index >= self.data.len() {
                break;
            }
            let b = self.data[self.index];
            if !f(b) {
                break;
            }
            self.index = self.index + 1;
        }
        vstd::slice::slice_subrange(self.data, start, self.index)
    }

    /// Consumes one byte per expected byte and requires each to match;
    /// a mismatch reports the expected byte, after consuming the byte that
    /// disagreed.
    pub fn expect_bytes(&mut self, bytes: &[u8]) -> (r: Result<(), ParseError>)
        requires
            old(self).wf(),
        ensures
            final(self).wf(),
            final(self).same_stream(*old(self)),
            ({
                let (res, ni) = spec_expect_bytes(old(self).bytes(), old(self).pos(), bytes@);
                r == res && final(self).pos() == ni
            }),
    {
        let ghost s = self.bytes();
        let ghost i0 = self.pos();
        let ghost sep0 = self.sep();
        let mut i: usize = 0;
        proof {
            assert(bytes@.skip(0) =~= bytes@);
        }
        while i < bytes.len()
            invariant
                self.wf(),
                self.bytes() == s,
                self.sep() == sep0,
                0 <= i <= bytes.len(),
                spec_expect_bytes(s, i0, bytes@) == spec_expect_bytes(
                    s,
                    self.pos(),
                    bytes@.skip(i as int),
                ),
            decreases bytes.len() - i,
        {
            let ghost rest = bytes@.skip(i as int);
            match self.next() {
                Ok(b) => {
                    proof {
                        assert(rest[0] == bytes@[i as int]);
                        assert(rest.skip(1) =~= bytes@.skip(i as int + 1));
                    }
                    if b != bytes[i] {
                        return Err(ParseError::UnexpectedChar(bytes[i] as char));
                    }
                },
                Err(e) => {
                    proof {
                        assert(rest[0] == bytes@[i as int]);
                    }
                    return Err(e);
                },
            }
            i = i + 1;
        }
        proof {
            assert(bytes@.skip(i as int) =~= Seq::<u8>::empty());
        }
        Ok(())
    }

    /// Consumes one byte when it equals `c`; reports whether it did.
    pub fn skip_if(&mut self, c: u8) -> (r: bool)
        requires
            old(self).wf(),
        ensures
            final(self).wf(),
            final(self).same_stream(*old(self)),
            r == (old(self).pos() < old(self).bytes().len()
                && old(self).bytes()[old(self).pos()] == c),
            final(self).pos() == if r {
                old(self).pos() + 1
            } else {
                old(self).pos()
            },
    {
        if self.index < self.data.len() && self.data[self.index] == c {
            self.index = self.index + 1;
            return true;
        }

        false
    }

    /// The bytes left to read, as text.
    ///
    /// Relies on `str::from_utf8`: over a valid UTF-8 buffer it returns the
    /// borrowed decoded text. The remaining bytes must be valid UTF-8,
    /// since the underlying call refuses anything else.
    #[verifier::external_body]
    pub fn remaining_str(&self) -> (r: &'a str)
        requires
            self.wf(),
            vstd::utf8::valid_utf8(self.bytes().skip(self.pos())),
        ensures
            r@ == vstd::utf8::decode_utf8(self.bytes().skip(self.pos())),
    {
        std::str::from_utf8(&self.data[self.index..]).unwrap()
    }

    /// Consumes the maximal run of digits starting at the position.
    pub fn take_digits(&mut self) -> (out: &'a [u8])
        requires
            old(self).wf(),
        ensures
            final(self).wf(),
            final(self).same_stream(*old(self)),
            final(self).pos() == span_end(old(self).bytes(), old(self).pos(), digit_pred()),
            out@ == old(self).bytes().subrange(old(self).pos(), final(self).pos()),
    {
        let ghost s = self.bytes();
        let ghost i0 = self.pos();
        let start = self.index;
        while self.index < self.data.len() && is_digit_byte(self.data[self.index])
            invariant
                self.wf(),
                self.bytes() == s,
                self.sep() == old(self).sep(),
                i0 <= self.pos() <= s.len(),
                forall|j: int| i0 <= j < self.pos() ==> is_digit(#[trigger] s[j]),
            decreases s.len() - self.pos(),
        {
            self.index = self.index + 1;
        }
        proof {
            lemma_span_end_is(s, i0, self.pos(), digit_pred());
        }
        vstd::slice::slice_subrange(self.data, start, self.index)
    }

    /// Consumes the maximal run of sign-or-digit bytes starting at the
    /// position.
    pub fn take_int_bytes(&mut self) -> (out: &'a [u8])
        requires
            old(self).wf(),
        ensures
            final(self).wf(),
            final(self).same_stream(*old(self)),
            final(self).pos() == span_end(old(self).bytes(), old(self).pos(), int_byte_pred()),
            out@ == old(self).bytes().subrange(old(self).pos(), final(self).pos()),
    {
        let ghost s = self.bytes();
        let ghost i0 = self.pos();
        let start = self.index;
        while self.index < self.data.len() && is_int_byte_exec(self.data[self.index])
            invariant
                self.wf(),
                self.bytes() == s,
                self.sep() == old(self).sep(),
                i0 <= self.pos() <= s.len(),
                forall|j: int| i0 <= j < self.pos() ==> is_int_byte(#[trigger] s[j]),
            decreases s.len() - self.pos(),
        {
            self.index = self.index + 1;
        }
        proof {
            lemma_span_end_is(s, i0, self.pos(), int_byte_pred());
        }
        vstd::slice::slice_subrange(self.data, start, self.index)
    }

    /// Consumes the maximal run of decimal-number bytes starting at the
    /// position.
    pub fn take_decimal_bytes(&mut self) -> (out: &'a [u8])
        requires
            old(self).wf(),
        ensures
            final(self).wf(),
            final(self).same_stream(*old(self)),
            final(self).pos() == span_end(old(self).bytes(), old(self).pos(), decimal_byte_pred()),
            out@ == old(self).bytes().subrange(old(self).pos(), final(self).pos()),
    {
        let ghost s = self.bytes();
        let ghost i0 = self.pos();
        let start = self.index;
        while self.index < self.data.len() && is_decimal_byte_exec(self.data[self.index])
            invariant
                self.wf(),
                self.bytes() == s,
                self.sep() == old(self).sep(),
                i0 <= self.pos() <= s.len(),
                forall|j: int| i0 <= j < self.pos() ==> is_decimal_byte(#[trigger] s[j]),
            decreases s.len() - self.pos(),
        {
            self.index = self.index + 1;
        }
        proof {
            lemma_span_end_is(s, i0, self.pos(), decimal_byte_pred());
        }
        vstd::slice::slice_subrange(self.data, start, self.index)
    }

    /// Performs the auto-consume separator step: when a separator is
    /// configured, one byte is consumed if any remains, whatever it holds.
    pub fn consume_sep(&mut self)
        requires
            old(self).wf(),
        ensures
            final(self).wf(),
            final(self).same_stream(*old(self)),
            final(self).pos() == spec_skip_sep(
                old(self).bytes(),
                old(self).pos(),
                old(self).sep() is Some,
            ),
    {
        if self.take_on_parse.is_some() {
            if self.index < self.data.len() {
                self.index = self.index + 1;
            }
        }
    }

    /// Decodes an unsigned 8-bit field: the maximal digit run, then the
    /// separator step.
    pub fn parse_u8(&mut self) -> (r: Result<u8, ParseError>)
        requires
            old(self).wf(),
        ensures
            final(self).wf(),
            final(self).same_stream(*old(self)),
            ({
                let (res, ni) = spec_u8_field(
                    old(self).bytes(),
                    old(self).pos(),
                    old(self).sep() is Some,
                );
                r == res && final(self).pos() == ni
            }),
    {
        let cap = self.take_digits();
        let val = parse_uint_text(cap, 255);
        self.consume_sep();
        match val {
            Ok(v) => Ok(v as u8),
            Err(e) => Err(e),
        }
    }

    /// Decodes an unsigned 16-bit field: the maximal digit run, then the
    /// separator step.
    pub fn parse_u16(&mut self) -> (r: Result<u16, ParseError>)
        requires
            old(self).wf(),
        ensures
            final(self).wf(),
            final(self).same_stream(*old(self)),
            ({
                let (res, ni) = spec_u16_field(
                    old(self).bytes(),
                    old(self).pos(),
                    old(self).sep() is Some,
                );
                r == res && final(self).pos() == ni
            }),
    {
        let cap = self.take_digits();
        let val = parse_uint_text(cap, 65535);
        self.consume_sep();
        match val {
            Ok(v) => Ok(v as u16),
            Err(e) => Err(e),
        }
    }

    /// Decodes a signed 8-bit field: the maximal run of sign-or-digit bytes,
    /// then the separator step.
    pub fn parse_i8(&mut self) -> (r: Result<i8, ParseError>)
        requires
            old(self).wf(),
        ensures
            final(self).wf(),
            final(self).same_stream(*old(self)),
            ({
                let (res, ni) = spec_i8_field(
                    old(self).bytes(),
                    old(self).pos(),
                    old(self).sep() is Some,
                );
                r == res && final(self).pos() == ni
            }),
    {
        let cap = self.take_int_bytes();
        let val = parse_i8_text(cap);
        self.consume_sep();
        val
    }

    /// Decodes an escaped text field: everything up to the next separator
    /// (or the end) is captured and unescaped, then the separator step.
    pub fn parse_string(&mut self) -> (r: Result<Vec<u8>, ParseError>)
        requires
            old(self).wf(),
        ensures
            final(self).wf(),
            final(self).same_stream(*old(self)),
            ({
                let (res, ni) = spec_string_field(
                    old(self).bytes(),
                    old(self).pos(),
                    old(self).sep() is Some,
                );
                final(self).pos() == ni && match (r, res) {
                    (Ok(v), Ok(sv)) => v@ == sv,
                    (Err(e), Err(se)) => e == se,
                    _ => false,
                }
            }),
    {
        let cap = self.take_until_or_end(0x2C);
        let out = unescape_bytes(cap);
        self.consume_sep();
        out
    }
}

/// `b` is an ASCII decimal digit.
pub(crate) fn is_digit_byte(b: u8) -> (r: bool)
    ensures
        r == is_digit(b),
{
    0x30 <= b && b <= 0x39
}

/// `b` is an ASCII sign or digit.
fn is_int_byte_exec(b: u8) -> (r: bool)
    ensures
        r == is_int_byte(b),
{
    is_digit_byte(b) || b == 0x2B || b == 0x2D
}

/// `b` may appear in the text of a decimal number.
fn is_decimal_byte_exec(b: u8) -> (r: bool)
    ensures
        r == is_decimal_byte(b),
{
    is_int_byte_exec(b) || b == 0x2E || b == 0x65 || b == 0x45
}

/// `b` is an ASCII hexadecimal digit.
fn is_hex_digit_byte(b: u8) -> (r: bool)
    ensures
        r == is_hex_digit(b),
{
    is_digit_byte(b) || (0x61 <= b && b <= 0x66) || (0x41 <= b && b <= 0x46)
}

/// The value of the hexadecimal digit `b`.
fn hex_val_byte(b: u8) -> (r: u8)
    requires
        is_hex_digit(b),
    ensures
        r == hex_val(b),
{
    if 0x30 <= b && b <= 0x39 {
        b - 0x30
    } else if 0x61 <= b && b <= 0x66 {
        b - 0x61 + 10
    } else {
        b - 0x41 + 10
    }
}

/// Computes the value of an unsigned integer capture, bounded by `max`.
pub(crate) fn parse_uint_text(cap: &[u8], max: u64) -> (r: Result<u64, ParseError>)
    ensures
        r == match spec_uint_text(cap@, max as int) {
            Ok(v) => Ok::<u64, ParseError>(v as u64),
            Err(e) => Err::<u64, ParseError>(e),
        },
        spec_uint_text(cap@, max as int) matches Ok(v) ==> 0 <= v <= max,
{
    let ghost s = cap@;
    if cap.len() == 0 {
        return Err(ParseError::InvalidNumber);
    }
    let mut val: u64 = 0;
    let mut over: bool = false;
    let mut k: usize = 0;
    while k < cap.len()
        invariant
            0 <= k <= s.len(),
            forall|j: int| 0 <= j < k ==> is_digit(#[trigger] s[j]),
            over == (dec_val(s.subrange(0, k as int)) > max),
            !over ==> val == dec_val(s.subrange(0, k as int)),
        decreases s.len() - k,
    {
        let b = cap[k];
        if !is_digit_byte(b) {
            return Err(ParseError::InvalidNumber);
        }
        let d = (b - 0x30) as u64;
        proof {
            let pref = s.subrange(0, k as int);
            let next = s.subrange(0, k as int + 1);
            assert(next.drop_last() =~= pref);
            assert(next.last() == s[k as int]);
            lemma_dec_val_nonneg(pref);
        }
        if !over {
            match val.checked_mul(10) {
                Some(m) => {
                    match m.checked_add(d) {
                        Some(m2) => {
                            if m2 > max {
                                over = true;
                            } else {
                                val = m2;
                            }
                        },
                        None => {
                            over = true;
                        },
                    }
                },
                None => {
                    over = true;
                },
            }
        }
        k = k + 1;
    }
    proof {
        assert(s.subrange(0, s.len() as int) =~= s);
    }
    if over {
        Err(ParseError::InvalidNumber)
    } else {
        Ok(val)
    }
}

/// Computes the value of a signed 8-bit integer capture.
fn parse_i8_text(cap: &[u8]) -> (r: Result<i8, ParseError>)
    ensures
        r == spec_i8_text(cap@),
{
    let ghost s = cap@;
    if cap.len() == 0 {
        return Err(ParseError::InvalidNumber);
    }
    let first = cap[0];
    let neg = first == 0x2D;
    let start: usize = if first == 0x2B || first == 0x2D {
        1
    } else {
        0
    };
    let digits = vstd::slice::slice_subrange(cap, start, cap.len());
    proof {
        if start == 0 {
            assert(digits@ =~= s);
        } else {
            assert(digits@ =~= s.subrange(1, s.len() as int));
        }
    }
    let bound: u64 = if neg {
        128
    } else {
        127
    };
    match parse_uint_text(digits, bound) {
        Ok(v) => {
            if neg {
                Ok((-(v as i64)) as i8)
            } else {
                Ok(v as i8)
            }
        },
        Err(e) => Err(e),
    }
}

/// Decodes the `^HH` escape sequences of a text field capture.
fn unescape_bytes(cap: &[u8]) -> (r: Result<Vec<u8>, ParseError>)
    ensures
        match (r, spec_unescape(cap@)) {
            (Ok(v), Ok(sv)) => v@ == sv,
            (Err(e), Err(se)) => e == se,
            _ => false,
        },
{
    let ghost s = cap@;
    let mut out: Vec<u8> = Vec::new();
    let mut i: usize = 0;
    proof {
        assert(s.skip(0) =~= s);
    }
    while i < cap.len()
        invariant
            0 <= i <= s.len(),
            match spec_unescape(s.skip(i as int)) {
                Ok(rest) => spec_unescape(s) matches Ok(whole) && whole == out@ + rest,
                Err(e) => spec_unescape(s) == Err::<Seq<u8>, ParseError>(e),
            },
        decreases s.len() - i,
    {
        let ghost rem = s.skip(i as int);
        let b = cap[i];
        proof {
            assert(rem[0] == s[i as int]);
        }
        if b == 0x5E {
            if cap.len() - i < 3 {
                proof {
                    assert(rem.len() < 3);
                }
                return Err(ParseError::Incomplete);
            }
            let h1 = cap[i + 1];
            let h2 = cap[i + 2];
            proof {
                assert(rem[1] == s[i as int + 1]);
                assert(rem[2] == s[i as int + 2]);
            }
            if !(is_hex_digit_byte(h1) && is_hex_digit_byte(h2)) {
                return Err(ParseError::InvalidNumber);
            }
            let v = hex_val_byte(h1) * 16 + hex_val_byte(h2);
            out.push(v);
            proof {
                assert(rem.skip(3) =~= s.skip(i as int + 3));
            }
            i = i + 3;
        } else {
            out.push(b);
            proof {
                assert(rem.skip(1) =~= s.skip(i as int + 1));
            }
            i = i + 1;
        }
    }
    proof {
        assert(s.skip(i as int) =~= Seq::<u8>::empty());
    }
    Ok(out)
}

} // verus!
