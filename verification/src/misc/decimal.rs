use vstd::prelude::*;

use crate::error::ParseError;
use crate::misc::parser::{
    decimal_byte_pred, is_sign, lemma_span_end_is, ne_pred, parse_uint_text, span_end,
    spec_skip_sep, spec_uint_text, Parser,
};

verus! {

/// An exact decimal number, as a sentence field carries it: the value is
/// `mantissa / 10^scale`, negated when `negative` is set. A field such as
/// `16.45` decodes to mantissa `1645` with scale `2`, losslessly.
#[derive(Debug, Clone, Copy, PartialEq, Eq, Structural)]
pub struct Decimal {
    /// The number carries a leading minus sign.
    pub negative: bool,
    /// The digits of the number, with the decimal point removed and any
    /// exponent applied.
    pub mantissa: u64,
    /// How many of the mantissa's digits lie behind the decimal point.
    pub scale: usize,
}

impl Decimal {
    /// The zero value a decoder yields for an absent field.
    pub open spec fn spec_zero() -> Decimal {
        Decimal { negative: false, mantissa: 0, scale: 0 }
    }

    pub fn zero() -> (r: Decimal)
        ensures
            r == Decimal::spec_zero(),
    {
        Decimal { negative: false, mantissa: 0, scale: 0 }
    }
}

/// Powers of ten.
pub open spec fn pow10(n: nat) -> int
    decreases n,
{
    if n == 0 {
        1
    } else {
        10 * pow10((n - 1) as nat)
    }
}

/// Every power of ten is positive.
pub proof fn lemma_pow10_positive(n: nat)
    ensures
        pow10(n) >= 1,
    decreases n,
{
    if n > 0 {
        lemma_pow10_positive((n - 1) as nat);
    }
}

/// Powers of ten grow with the exponent.
pub proof fn lemma_pow10_mono(a: nat, b: nat)
    requires
        a <= b,
    ensures
        pow10(a) <= pow10(b),
    decreases b,
{
    if a < b {
        lemma_pow10_mono(a, (b - 1) as nat);
        lemma_pow10_positive((b - 1) as nat);
    }
}

/// From the twentieth power on, a power of ten passes the mantissa range.
pub proof fn lemma_pow10_big(n: nat)
    requires
        n >= 20,
    ensures
        pow10(n) > u64::MAX,
    decreases n,
{
    if n == 20 {
        reveal_with_fuel(pow10, 21);
        assert(pow10(19) == 10000000000000000000);
    } else {
        lemma_pow10_big((n - 1) as nat);
        lemma_pow10_positive((n - 1) as nat);
    }
}

/// The byte predicate that stops at an exponent marker, as a value.
pub open spec fn not_exp_pred() -> spec_fn(u8) -> bool {
    |b: u8| b != 0x65 && b != 0x45
}

/// The digits and scale of an unsigned mantissa text: digits with at most
/// one decimal point among them, at least one digit in all, and the
/// joined digits within the mantissa range.
pub open spec fn spec_mantissa_text(v: Seq<u8>) -> Result<(int, int), ParseError> {
    let dot = span_end(v, 0, ne_pred(0x2E));
    let intpart = v.subrange(0, dot);
    let frac = if dot < v.len() {
        v.subrange(dot + 1, v.len() as int)
    } else {
        Seq::<u8>::empty()
    };
    match spec_uint_text(intpart + frac, u64::MAX as int) {
        Ok(m) => Ok((m, frac.len() as int)),
        Err(_) => Err(ParseError::InvalidFloat),
    }
}

/// The value of an exponent text: an optional single sign, then a
/// non-empty run of digits within the 32-bit range.
pub open spec fn spec_exponent_text(v: Seq<u8>) -> Result<int, ParseError> {
    if v.len() == 0 {
        Err(ParseError::InvalidFloat)
    } else {
        let xneg = v[0] == 0x2D;
        let digits = if is_sign(v[0]) {
            v.subrange(1, v.len() as int)
        } else {
            v
        };
        match spec_uint_text(digits, 0xFFFF_FFFF) {
            Ok(x) => Ok(
                if xneg {
                    -x
                } else {
                    x
                },
            ),
            Err(_) => Err(ParseError::InvalidFloat),
        }
    }
}

/// The exact decimal for a mantissa `m` with `sc` fraction digits and the
/// exponent `x` applied: the scale absorbs the exponent, and where the
/// exponent passes the fraction the mantissa is shifted instead. A value
/// whose shifted mantissa leaves the mantissa range has no exact
/// representation and is refused.
pub open spec fn spec_apply_exponent(neg: bool, m: int, sc: int, x: int) -> Result<
    Decimal,
    ParseError,
> {
    let eff = sc - x;
    if eff >= 0 {
        if eff <= usize::MAX {
            Ok(Decimal { negative: neg, mantissa: m as u64, scale: eff as usize })
        } else {
            Err(ParseError::InvalidFloat)
        }
    } else {
        if m * pow10((-eff) as nat) <= u64::MAX {
            Ok(
                Decimal {
                    negative: neg,
                    mantissa: (m * pow10((-eff) as nat)) as u64,
                    scale: 0,
                },
            )
        } else {
            Err(ParseError::InvalidFloat)
        }
    }
}

/// The value of a decimal field text: an optional single sign, a mantissa
/// of digits with at most one decimal point and at least one digit, and
/// an optional exponent part opened by `e` or `E`. The exact value must
/// fit the mantissa range after the exponent is applied.
pub open spec fn spec_decimal_text(s: Seq<u8>) -> Result<Decimal, ParseError> {
    if s.len() == 0 {
        Err(ParseError::InvalidFloat)
    } else {
        let neg = s[0] == 0x2D;
        let start: int = if is_sign(s[0]) {
            1
        } else {
            0
        };
        let e = span_end(s, start, not_exp_pred());
        match spec_mantissa_text(s.subrange(start, e)) {
            Err(err) => Err(err),
            Ok((m, sc)) => {
                if e == s.len() {
                    spec_apply_exponent(neg, m, sc, 0)
                } else {
                    match spec_exponent_text(s.subrange(e + 1, s.len() as int)) {
                        Err(err) => Err(err),
                        Ok(x) => spec_apply_exponent(neg, m, sc, x),
                    }
                }
            },
        }
    }
}

/// The outcome and final position of decoding a decimal field at `i`: the
/// maximal run of decimal-number bytes is captured, then the separator step
/// follows.
pub open spec fn spec_decimal_field(s: Seq<u8>, i: int, has_sep: bool) -> (Result<
    Decimal,
    ParseError,
>, int) {
    let j = span_end(s, i, decimal_byte_pred());
    (spec_decimal_text(s.subrange(i, j)), spec_skip_sep(s, j, has_sep))
}

/// The power of ten `pow10(k)` for the exponents a mantissa can absorb.
fn pow10_u64(k: u64) -> (r: u64)
    requires
        k <= 19,
    ensures
        r == pow10(k as nat),
{
    let mut r: u64 = 1;
    let mut j: u64 = 0;
    while j < k
        invariant
            0 <= j <= k <= 19,
            r == pow10(j as nat),
        decreases k - j,
    {
        proof {
            lemma_pow10_bound((j + 1) as nat);
            lemma_pow10_positive(j as nat);
        }
        r = r * 10;
        j = j + 1;
    }
    r
}

/// The powers of ten a mantissa can absorb stay within its range.
proof fn lemma_pow10_bound(n: nat)
    requires
        n <= 19,
    ensures
        pow10(n) <= 10000000000000000000,
{
    lemma_pow10_mono(n, 19);
    reveal_with_fuel(pow10, 21);
    assert(pow10(19) == 10000000000000000000);
}

/// Shifts the mantissa left by `k` decimal places, exactly when the
/// result stays within the mantissa range.
fn shift_mantissa(m: u64, k: u64) -> (r: Option<u64>)
    ensures
        r == if m * pow10(k as nat) <= u64::MAX {
            Some((m * pow10(k as nat)) as u64)
        } else {
            None::<u64>
        },
{
    if m == 0 {
        proof {
            lemma_pow10_positive(k as nat);
        }
        return Some(0);
    }
    if k > 19 {
        proof {
            lemma_pow10_big(k as nat);
            assert(m * pow10(k as nat) > u64::MAX) by (nonlinear_arith)
                requires
                    m >= 1,
                    pow10(k as nat) > u64::MAX,
            ;
        }
        return None;
    }
    let p = pow10_u64(k);
    m.checked_mul(p)
}

/// Computes the value of a decimal field capture.
pub fn parse_decimal_text(cap: &[u8]) -> (r: Result<Decimal, ParseError>)
    ensures
        r == spec_decimal_text(cap@),
{
    let ghost s = cap@;
    if cap.len() == 0 {
        return Err(ParseError::InvalidFloat);
    }
    let first = cap[0];
    let neg = first == 0x2D;
    let start: usize = if first == 0x2B || first == 0x2D {
        1
    } else {
        0
    };

    // Find the exponent marker, or the end of the capture.
    let mut epos: usize = start;
    while epos < cap.len() && cap[epos] != 0x65 && cap[epos] != 0x45
        invariant
            start <= epos <= s.len(),
            forall|j: int| start <= j < epos ==> #[trigger] s[j] != 0x65 && s[j] != 0x45,
        decreases s.len() - epos,
    {
        epos = epos + 1;
    }
    proof {
        lemma_span_end_is(s, start as int, epos as int, not_exp_pred());
    }

    let (mantissa, scale) = match parse_mantissa_text(cap, start, epos) {
        Ok(v) => v,
        Err(e) => {
            return Err(e);
        },
    };

    if epos == cap.len() {
        return Ok(Decimal { negative: neg, mantissa, scale });
    }

    // The exponent part: an optional sign, then digits.
    let ghost xtext = s.subrange(epos as int + 1, s.len() as int);
    if epos + 1 == cap.len() {
        return Err(ParseError::InvalidFloat);
    }
    let xfirst = cap[epos + 1];
    let xneg = xfirst == 0x2D;
    let xstart: usize = if xfirst == 0x2B || xfirst == 0x2D {
        epos + 2
    } else {
        epos + 1
    };
    let xdigits = vstd::slice::slice_subrange(cap, xstart, cap.len());
    proof {
        if xstart == epos + 2 {
            assert(xdigits@ =~= xtext.subrange(1, xtext.len() as int));
        } else {
            assert(xdigits@ =~= xtext);
        }
    }
    let xval = match parse_uint_text(xdigits, 0xFFFF_FFFF) {
        Ok(v) => v,
        Err(_) => {
            return Err(ParseError::InvalidFloat);
        },
    };
    // Apply the exponent: the scale absorbs it, or the mantissa shifts.
    if xneg {
        // The scale grows by the exponent's magnitude.
        match scale.checked_add(xval as usize) {
            Some(eff) => Ok(Decimal { negative: neg, mantissa, scale: eff }),
            None => Err(ParseError::InvalidFloat),
        }
    } else {
        if xval as usize <= scale {
            Ok(Decimal { negative: neg, mantissa, scale: scale - xval as usize })
        } else {
            let k = xval - scale as u64;
            match shift_mantissa(mantissa, k) {
                Some(v) => Ok(Decimal { negative: neg, mantissa: v, scale: 0 }),
                None => Err(ParseError::InvalidFloat),
            }
        }
    }
}

/// Computes the mantissa digits and scale of the capture between `start`
/// and `epos`.
fn parse_mantissa_text(cap: &[u8], start: usize, epos: usize) -> (r: Result<
    (u64, usize),
    ParseError,
>)
    requires
        start <= epos <= cap@.len(),
    ensures
        r == match spec_mantissa_text(cap@.subrange(start as int, epos as int)) {
            Ok((m, sc)) => Ok::<(u64, usize), ParseError>((m as u64, sc as usize)),
            Err(e) => Err::<(u64, usize), ParseError>(e),
        },
        spec_mantissa_text(cap@.subrange(start as int, epos as int)) matches Ok(t) ==> 0 <= t.0
            <= u64::MAX && 0 <= t.1 <= usize::MAX,
{
    let ghost s = cap@;
    let ghost v = s.subrange(start as int, epos as int);

    // Find the decimal point of the mantissa, or its end.
    let mut dot: usize = start;
    while dot < epos && cap[dot] != 0x2E
        invariant
            start <= dot <= epos <= s.len(),
            forall|j: int| start <= j < dot ==> #[trigger] s[j] != 0x2E,
        decreases epos - dot,
    {
        dot = dot + 1;
    }
    proof {
        assert forall|j: int| 0 <= j < dot - start implies (ne_pred(0x2E))(#[trigger] v[j]) by {
            assert(v[j] == s[start + j]);
        }
        if dot < epos {
            assert(v[dot - start] == s[dot as int]);
        }
        lemma_span_end_is(v, 0, dot - start, ne_pred(0x2E));
    }

    let ghost intpart = v.subrange(0, dot - start);
    let ghost frac = if dot - start < v.len() {
        v.subrange(dot - start + 1, v.len() as int)
    } else {
        Seq::<u8>::empty()
    };

    // Join the digits on both sides of the decimal point.
    let mut joined: Vec<u8> = Vec::new();
    let mut k: usize = start;
    proof {
        assert(s.subrange(start as int, start as int) =~= Seq::<u8>::empty());
    }
    while k < dot
        invariant
            start <= k <= dot <= s.len(),
            joined@ == s.subrange(start as int, k as int),
        decreases dot - k,
    {
        proof {
            assert(s.subrange(start as int, k as int + 1) =~= s.subrange(
                start as int,
                k as int,
            ).push(s[k as int]));
        }
        joined.push(cap[k]);
        k = k + 1;
    }
    proof {
        assert(intpart =~= s.subrange(start as int, dot as int));
    }
    let scale: usize = if dot < epos {
        let mut k: usize = dot + 1;
        proof {
            assert(intpart + s.subrange(dot as int + 1, dot as int + 1) =~= intpart);
        }
        while k < epos
            invariant
                dot + 1 <= k <= epos <= s.len(),
                joined@ == intpart + s.subrange(dot as int + 1, k as int),
            decreases epos - k,
        {
            proof {
                assert(intpart + s.subrange(dot as int + 1, k as int + 1) =~= (intpart
                    + s.subrange(dot as int + 1, k as int)).push(s[k as int]));
            }
            joined.push(cap[k]);
            k = k + 1;
        }
        epos - dot - 1
    } else {
        0
    };
    proof {
        assert(joined@ =~= intpart + frac);
        if dot < epos {
            assert(frac =~= s.subrange(dot as int + 1, epos as int));
        }
    }

    match parse_uint_text(joined.as_slice(), u64::MAX) {
        Ok(m) => Ok((m, scale)),
        Err(_) => Err(ParseError::InvalidFloat),
    }
}

impl<'a> Parser<'a> {
    /// Decodes a decimal field: the maximal run of decimal-number bytes,
    /// then the separator step.
    pub fn parse_decimal(&mut self) -> (r: Result<Decimal, ParseError>)
        requires
            old(self).wf(),
        ensures
            final(self).wf(),
            final(self).same_stream(*old(self)),
            ({
                let (res, ni) = spec_decimal_field(
                    old(self).bytes(),
                    old(self).pos(),
                    old(self).sep() is Some,
                );
                r == res && final(self).pos() == ni
            }),
    {
        let cap = self.take_decimal_bytes();
        let val = parse_decimal_text(cap);
        self.consume_sep();
        val
    }
}

} // verus!
