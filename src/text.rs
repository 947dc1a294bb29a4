//! Decimal text of numbers, and the little-endian bytes through which
//! numbers pass to and from the big-integer parser and printer.
use vstd::prelude::*;
use ibig::ops::UnsignedAbs;
use vstd::string::StringSliceAdditionalSpecFns;
use crate::bits::{
    bits_canonical, bits_to_byte, bits_value, lemma_bits_concat, lemma_bits_bound,
    lemma_pow2_add, lemma_pow2_monotone, lemma_pow2_small, pow2, push_bits, trim_high_zeros,
};
use crate::zarith::magnitude;

verus! {

broadcast use vstd::string::is_ascii_spec_bytes;

pub open spec fn is_digit(c: char) -> bool {
    '0' <= c <= '9'
}

pub open spec fn digit_value(c: char) -> nat {
    (c as u32 - 48) as nat
}

/// The number a string of decimal digits spells.
pub open spec fn decimal_value(s: Seq<char>) -> nat
    decreases s.len(),
{
    if s.len() == 0 {
        0
    } else {
        decimal_value(s.drop_last()) * 10 + digit_value(s.last())
    }
}

/// One or more decimal digits and nothing else.
pub open spec fn is_nat_text(s: Seq<char>) -> bool {
    s.len() > 0 && forall|i: int| 0 <= i < s.len() ==> is_digit(#[trigger] s[i])
}

/// Decimal digits, with an optional leading minus sign.
pub open spec fn is_int_text(s: Seq<char>) -> bool {
    is_nat_text(s) || (s.len() > 0 && s[0] == '-' && is_nat_text(s.drop_first()))
}

/// The integer an integer text spells.
pub open spec fn int_text_value(s: Seq<char>) -> int {
    if s.len() > 0 && s[0] == '-' {
        -(decimal_value(s.drop_first()) as int)
    } else {
        decimal_value(s) as int
    }
}

/// The decimal digits of `v` as printed: no leading zero but in `0` itself.
pub open spec fn is_decimal_of(s: Seq<char>, v: nat) -> bool {
    is_nat_text(s) && (s.len() == 1 || s[0] != '0') && decimal_value(s) == v
}

/// The number that little-endian base-256 digits stand for.
pub open spec fn bytes_value(b: Seq<u8>) -> nat
    decreases b.len(),
{
    if b.len() == 0 {
        0
    } else {
        b[0] as nat + 256 * bytes_value(b.drop_first())
    }
}

#[verifier::external_type_specification]
#[verifier::external_body]
pub struct ExParseError(ibig::error::ParseError);

/// Relies on `ibig::UBig::from_str_radix` in base 10, which reads a string of
/// decimal digits as the number it spells, and on `UBig::to_le_bytes`, which
/// gives that number's little-endian bytes.
#[verifier::external_body]
fn parse_unsigned(s: &str) -> (r: Result<Vec<u8>, ibig::error::ParseError>)
    ensures
        is_nat_text(s@) ==> r is Ok && bytes_value(r->Ok_0@) == decimal_value(s@),
{
    ibig::UBig::from_str_radix(s, 10).map(|u| u.to_le_bytes())
}

/// Relies on `ibig::IBig::from_str_radix` in base 10, which reads an optional
/// `-` and decimal digits, and on `UnsignedAbs::unsigned_abs` and
/// `UBig::to_le_bytes`, which give the magnitude's little-endian bytes.
#[verifier::external_body]
fn parse_signed_magnitude(s: &str) -> (r: Result<Vec<u8>, ibig::error::ParseError>)
    ensures
        is_int_text(s@) ==> r is Ok && bytes_value(r->Ok_0@) == magnitude(int_text_value(s@)),
{
    ibig::IBig::from_str_radix(s, 10).map(|i| i.unsigned_abs().to_le_bytes())
}

/// Relies on `ibig::UBig::from_le_bytes`, which reads little-endian bytes,
/// and on the `Display` of `UBig`, which prints decimal digits without
/// leading zeros; `prefix` is written before them.
#[verifier::external_body]
fn print_unsigned(prefix: &str, b: &[u8]) -> (r: String)
    ensures
        r@.len() > prefix@.len(),
        r@.subrange(0, prefix@.len() as int) == prefix@,
        is_decimal_of(r@.skip(prefix@.len() as int), bytes_value(b@)),
{
    format!("{}{}", prefix, ibig::UBig::from_le_bytes(b))
}

proof fn lemma_bytes_push(s: Seq<u8>, x: u8)
    ensures
        bytes_value(s.push(x)) == bytes_value(s) + pow2(8 * s.len()) * x,
    decreases s.len(),
{
    lemma_pow2_small();
    if s.len() == 0 {
        assert(s.push(x).drop_first() =~= Seq::<u8>::empty());
        assert(s.push(x)[0] == x);
        assert(pow2(8 * s.len()) == 1);
        reveal_with_fuel(bytes_value, 2);
        assert(bytes_value(s.push(x)) == x);
    } else {
        let t = s.drop_first();
        assert(s.push(x).drop_first() =~= t.push(x));
        assert(s.push(x)[0] == s[0]);
        lemma_bytes_push(t, x);
        let m = 8 * t.len();
        lemma_pow2_add(8, m);
        assert(8 + m == 8 * s.len());
        let p = pow2(m);
        assert(pow2(8 * s.len()) == 256 * p);
        let vt = bytes_value(t);
        assert(bytes_value(s.push(x)) == s[0] + 256 * (vt + p * x));
        assert(256 * (vt + p * x) == 256 * vt + (256 * p) * x) by (nonlinear_arith);
    }
}

/// The little-endian bytes of the number that `b` stands for.
pub fn bits_to_le_bytes(b: &Vec<bool>) -> (r: Vec<u8>)
    ensures
        bytes_value(r@) == bits_value(b@),
{
    let mut out: Vec<u8> = Vec::new();
    let mut pos: usize = 0;
    proof {
        assert(b@.skip(0) =~= b@);
        lemma_pow2_small();
    }
    while pos < b.len()
        invariant
            pos <= b.len(),
            pos < b.len() ==> pos == 8 * out@.len(),
            bits_value(b@) == bytes_value(out@) + pow2(8 * out@.len()) * bits_value(
                b@.skip(pos as int),
            ),
        decreases b.len() - pos,
    {
        let end = if b.len() - pos > 8 {
            pos + 8
        } else {
            b.len()
        };
        let d = bits_to_byte(b, pos, end);
        proof {
            lemma_pow2_small();
            let w = b@.skip(pos as int);
            assert(w =~= b@.subrange(pos as int, end as int) + b@.skip(end as int));
            lemma_bits_concat(b@.subrange(pos as int, end as int), b@.skip(end as int));
            lemma_bytes_push(out@, d);
            let k = out@.len();
            lemma_pow2_add(8 * k, 8);
            let pk = pow2(8 * k);
            let rest = bits_value(b@.skip(end as int));
            let pe = pow2((end - pos) as nat);
            if end < b.len() {
                assert(pk * (d + pe * rest) == pk * d + (pk * 256) * rest) by (nonlinear_arith)
                    requires
                        pe == 256,
                ;
            } else {
                assert(b@.skip(end as int) =~= Seq::<bool>::empty());
                assert(pk * (d + pe * rest) == pk * d) by (nonlinear_arith)
                    requires
                        rest == 0,
                ;
            }
        }
        out.push(d);
        pos = end;
    }
    proof {
        assert(b@.skip(pos as int) =~= Seq::<bool>::empty());
        assert(bits_value(b@.skip(pos as int)) == 0);
        let pk = pow2(8 * out@.len());
        assert(pk * 0 == 0) by (nonlinear_arith);
    }
    out
}

/// The canonical bits of the number that little-endian bytes stand for.
pub fn le_bytes_to_bits(b: &[u8]) -> (r: Vec<bool>)
    ensures
        bits_canonical(r@),
        bits_value(r@) == bytes_value(b@),
{
    let mut acc: Vec<bool> = Vec::new();
    let mut i: usize = 0;
    let n = b.len();
    proof {
        assert(b@.subrange(0, 0) =~= Seq::<u8>::empty());
        lemma_pow2_small();
    }
    while i < n
        invariant
            n == b@.len(),
            i <= n,
            acc@.len() == 8 * i,
            bits_value(acc@) == bytes_value(b@.subrange(0, i as int)),
        decreases n - i,
    {
        proof {
            lemma_pow2_small();
            assert(b@.subrange(0, i + 1) =~= b@.subrange(0, i as int).push(b@[i as int]));
            lemma_bytes_push(b@.subrange(0, i as int), b@[i as int]);
        }
        push_bits(&mut acc, b[i], 8);
        i = i + 1;
    }
    proof {
        assert(b@.subrange(0, n as int) =~= b@);
    }
    trim_high_zeros(&mut acc);
    acc
}

/// Whether `s` is one or more decimal digits, after `skip` leading characters.
fn digits_from(s: &str, skip: usize) -> (r: bool)
    requires
        skip <= 1,
        skip == 1 ==> s@.len() > 0 && s@[0] == '-',
    ensures
        r == (s@.len() > skip && is_nat_text(s@.skip(skip as int))),
{
    if !s.is_ascii() {
        proof {
            if s@.len() > skip && is_nat_text(s@.skip(skip as int)) {
                assert forall|i: int| 0 <= i < s@.len() implies '\0' <= #[trigger] s@[i]
                    <= '\u{7f}' by {
                    if i >= skip {
                        assert(s@.skip(skip as int)[i - skip] == s@[i]);
                    }
                }
                assert(vstd::string::is_ascii(s));
            }
        }
        return false;
    }
    let b = s.as_bytes();
    let n = b.len();
    if n <= skip {
        return false;
    }
    let mut i: usize = skip;
    while i < n
        invariant
            b@ == s.spec_bytes(),
            vstd::string::is_ascii(s),
            n == b@.len(),
            b@.len() == s@.len(),
            skip < n,
            skip <= i <= n,
            forall|j: int| skip <= j < i ==> is_digit(#[trigger] s@[j]),
        decreases n - i,
    {
        if b[i] < 48 || b[i] > 57 {
            proof {
                assert(s@.skip(skip as int)[i - skip] == s@[i as int]);
            }
            return false;
        }
        proof {
            assert(b@[i as int] == s@[i as int] as u8);
            assert(s@[i as int] <= '\u{7f}');
        }
        i = i + 1;
    }
    proof {
        assert forall|j: int| 0 <= j < s@.skip(skip as int).len() implies is_digit(
            #[trigger] s@.skip(skip as int)[j],
        ) by {
            assert(s@.skip(skip as int)[j] == s@[j + skip]);
        }
    }
    true
}

/// Whether `s` starts with a minus sign; `false` for text that is not ASCII.
fn ascii_minus_first(s: &str) -> (r: bool)
    ensures
        r ==> s@.len() > 0 && s@[0] == '-',
        !r && is_int_text(s@) ==> is_nat_text(s@),
{
    if !s.is_ascii() {
        proof {
            if is_int_text(s@) && !is_nat_text(s@) {
                assert forall|i: int| 0 <= i < s@.len() implies '\0' <= #[trigger] s@[i]
                    <= '\u{7f}' by {
                    if i > 0 {
                        assert(s@.drop_first()[i - 1] == s@[i]);
                    }
                }
                assert(vstd::string::is_ascii(s));
            }
        }
        return false;
    }
    let b = s.as_bytes();
    if b.len() == 0 {
        return false;
    }
    proof {
        assert(b@[0] == s@[0] as u8);
        assert(s@[0] <= '\u{7f}');
    }
    b[0] == 45
}

/// The canonical bits of the number that `s` spells, or `None` where `s` is
/// not one or more decimal digits.
pub(crate) fn nat_text_bits(s: &str) -> (r: Option<Vec<bool>>)
    ensures
        r is Some <==> is_nat_text(s@),
        r is Some ==> bits_canonical(r->Some_0@) && bits_value(r->Some_0@) == decimal_value(s@),
{
    if !digits_from(s, 0) {
        proof {
            assert(s@.skip(0) =~= s@);
        }
        return None;
    }
    proof {
        assert(s@.skip(0) =~= s@);
    }
    match parse_unsigned(s) {
        Ok(b) => Some(le_bytes_to_bits(b.as_slice())),
        Err(_) => None,
    }
}

/// The sign and the canonical bits of the magnitude of the integer that `s`
/// spells, or `None` where `s` is not an integer text.
pub(crate) fn int_text_parts(s: &str) -> (r: Option<(bool, Vec<bool>)>)
    ensures
        r is Some <==> is_int_text(s@),
        r is Some ==> bits_canonical(r->Some_0.1@) && bits_value(r->Some_0.1@) == magnitude(
            int_text_value(s@),
        ) && r->Some_0.0 == (int_text_value(s@) < 0),
{
    let minus = ascii_minus_first(s);
    let valid = if minus {
        digits_from(s, 1)
    } else {
        digits_from(s, 0)
    };
    proof {
        assert(s@.skip(0) =~= s@);
        assert(s@.skip(1) =~= s@.drop_first());
        if minus {
            assert(!is_nat_text(s@)) by {
                if is_nat_text(s@) {
                    assert(is_digit(s@[0]));
                }
            }
        }
    }
    if !valid {
        return None;
    }
    match parse_signed_magnitude(s) {
        Ok(b) => {
            let bits = le_bytes_to_bits(b.as_slice());
            let negative = minus && bits.len() > 0;
            proof {
                if minus && bits.len() == 0 {
                    assert(int_text_value(s@) == 0);
                }
                if !minus {
                    assert(!(s@[0] == '-')) by {
                        assert(is_digit(s@[0]));
                    }
                }
                if negative {
                    crate::bits::lemma_bits_positive(bits@);
                }
            }
            Some((negative, bits))
        },
        Err(_) => None,
    }
}

/// The decimal digits of the number that `bits` stand for, after `prefix`.
pub(crate) fn print_bits(prefix: &str, bits: &Vec<bool>) -> (r: String)
    ensures
        r@.len() > prefix@.len(),
        r@.subrange(0, prefix@.len() as int) == prefix@,
        is_decimal_of(r@.skip(prefix@.len() as int), bits_value(bits@)),
{
    let b = bits_to_le_bytes(bits);
    print_unsigned(prefix, b.as_slice())
}

} // verus!
