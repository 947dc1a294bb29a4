//! Encoders and decoders between numbers and the variable-length byte format.
use vstd::prelude::*;
use crate::bits::{
    bits_canonical, bits_to_byte, bits_value, lemma_bits_bound, lemma_bits_concat,
    lemma_bits_positive, lemma_pow2_add, lemma_pow2_small, pow2, push_bits, trim_high_zeros,
};
use crate::consumable::ConsumableBytes;
use crate::error::Error;
use crate::integer::Int;
use crate::natural::Nat;
use crate::zarith::{
    magnitude, shift_decoded, signed, zarith_int, zarith_int_decode, zarith_nat, zarith_nat_decode,
};

verus! {

/// Splits the bits from `start` on into the low `end - start` bits and the rest.
proof fn lemma_split_at(b: Seq<bool>, start: int, end: int)
    requires
        0 <= start <= end <= b.len(),
    ensures
        bits_value(b.skip(start)) == bits_value(b.subrange(start, end)) + pow2(
            (end - start) as nat,
        ) * bits_value(b.skip(end)),
        bits_value(b.subrange(start, end)) < pow2((end - start) as nat),
{
    assert(b.skip(start) =~= b.subrange(start, end) + b.skip(end));
    lemma_bits_concat(b.subrange(start, end), b.skip(end));
    lemma_bits_bound(b.subrange(start, end));
}

/// The bits from `pos` on of a canonical sequence are canonical.
proof fn lemma_suffix_canonical(b: Seq<bool>, pos: int)
    requires
        bits_canonical(b),
        0 <= pos <= b.len(),
    ensures
        bits_canonical(b.skip(pos)),
        pos < b.len() ==> bits_value(b.skip(pos)) > 0,
{
    if pos < b.len() {
        assert(b.skip(pos).last() == b.last());
        lemma_bits_positive(b.skip(pos));
    }
}

/// Appends the encoding of the number that the bits from `start` on stand for.
pub(crate) fn encode_bits_from(b: &Vec<bool>, start: usize, out: &mut Vec<u8>)
    requires
        bits_canonical(b@),
        start <= b.len(),
    ensures
        final(out)@ == old(out)@ + zarith_nat(bits_value(b@.skip(start as int))),
{
    let mut pos = start;
    proof {
        assert(out@ =~= old(out)@ + Seq::<u8>::empty());
    }
    loop
        invariant
            bits_canonical(b@),
            start <= pos <= b.len(),
            out@ + zarith_nat(bits_value(b@.skip(pos as int))) == old(out)@ + zarith_nat(
                bits_value(b@.skip(start as int)),
            ),
        decreases b.len() - pos,
    {
        let end = if b.len() - pos > 7 {
            pos + 7
        } else {
            b.len()
        };
        let d = bits_to_byte(b, pos, end);
        let ghost v = bits_value(b@.skip(pos as int));
        let ghost rest = bits_value(b@.skip(end as int));
        proof {
            lemma_split_at(b@, pos as int, end as int);
            lemma_suffix_canonical(b@, end as int);
            lemma_pow2_small();
            if end < b.len() {
                assert(v == d + 128 * rest);
                assert(v % 128 == d as nat && v / 128 == rest) by (nonlinear_arith)
                    requires
                        v == d + 128 * rest,
                        d < 128,
                ;
            } else {
                assert(b@.skip(end as int) =~= Seq::<bool>::empty());
                crate::bits::lemma_pow2_monotone((end - pos) as nat, 7);
            }
        }
        if end == b.len() {
            let ghost before = out@;
            out.push(d);
            proof {
                assert(zarith_nat(v) == seq![d]);
                assert(out@ =~= before + zarith_nat(v));
            }
            return ;
        }
        let ghost before = out@;
        out.push(d + 128);
        proof {
            assert(zarith_nat(v) == seq![(d + 128) as u8] + zarith_nat(rest));
            assert(out@ + zarith_nat(rest) =~= before + zarith_nat(v));
        }
        pos = end;
    }
}

/// Consumes bytes up to and including the first one without the continuation
/// flag, appending seven bits of each to `acc`. Returns `false` where the
/// bytes run out first, having consumed them all.
pub(crate) fn decode_groups(cs: &mut ConsumableBytes, acc: &mut Vec<bool>) -> (ok: bool)
    ensures
        ok ==> zarith_nat_decode(old(cs)@) is Some,
        !ok ==> zarith_nat_decode(old(cs)@) is None,
        ok ==> final(cs)@ == old(cs)@.skip(zarith_nat_decode(old(cs)@)->Some_0.1 as int)
            && bits_value(final(acc)@) == bits_value(old(acc)@) + pow2(old(acc)@.len())
            * zarith_nat_decode(old(cs)@)->Some_0.0,
        !ok ==> final(cs)@.len() == 0,
{
    let ghost orig = cs@;
    let ghost acc0 = acc@;
    let ghost mut partial: nat = 0;
    let ghost mut k: nat = 0;
    proof {
        assert(orig.skip(0) =~= orig);
        assert(pow2(0) == 1);
        assert(shift_decoded(zarith_nat_decode(orig), 0, 1, 0) == zarith_nat_decode(orig)) by {
            match zarith_nat_decode(orig) {
                Some((v, n)) => {},
                None => {},
            }
        }
    }
    loop
        invariant
            orig == old(cs)@,
            acc0 == old(acc)@,
            k <= orig.len(),
            cs@ == orig.skip(k as int),
            acc@.len() == acc0.len() + 7 * k,
            bits_value(acc@) == bits_value(acc0) + pow2(acc0.len()) * partial,
            zarith_nat_decode(orig) == shift_decoded(
                zarith_nat_decode(cs@),
                partial,
                pow2(7 * k),
                k,
            ),
        decreases cs@.len(),
    {
        let r = cs.consume_first();
        let b = match r {
            Ok(b) => b,
            Err(_) => {
                return false;
            },
        };
        let ghost before = cs@;
        let d = b & 0x7f;
        proof {
            assert(b & 0x7f == b % 128) by (bit_vector);
            lemma_pow2_small();
        }
        let ghost acc_before = acc@;
        push_bits(acc, d, 7);
        proof {
            let p0 = pow2(acc0.len());
            let pk = pow2(7 * k);
            lemma_pow2_add(acc0.len(), 7 * k);
            lemma_pow2_add(7 * k, 7);
            assert(acc_before.len() == acc0.len() + 7 * k);
            assert(p0 * partial + (p0 * pk) * d == p0 * (partial + pk * d)) by (nonlinear_arith);
            assert(orig.skip(k + 1 as int) =~= orig.skip(k as int).drop_first());
            let s = orig.skip(k as int);
            assert(s[0] == b);
            if b >= 128 {
                let inner = zarith_nat_decode(s.drop_first());
                match inner {
                    Some((v, n)) => {
                        assert(partial + pk * ((b - 128) as nat + 128 * v) == (partial + pk * d)
                            + (pk * 128) * v) by (nonlinear_arith)
                            requires
                                d == b - 128,
                        ;
                    },
                    None => {},
                }
            }
        }
        proof {
            partial = partial + pow2(7 * k) * (d as nat);
            k = k + 1;
        }
        if b < 128 {
            return true;
        }
    }
}

/// Converts naturals to and from their variable-length byte encoding.
#[derive(Debug)]
pub struct NaturalBytesCoder;

impl NaturalBytesCoder {
    /// The encoding of `value`.
    pub fn encode_unsigned(value: &Nat) -> (r: Vec<u8>)
        ensures
            r@ == zarith_nat(value@),
    {
        let b = value.bits();
        let mut out: Vec<u8> = Vec::new();
        encode_bits_from(b, 0, &mut out);
        proof {
            assert(b@.skip(0) =~= b@);
            assert(out@ =~= zarith_nat(value@));
        }
        out
    }

    /// The encoding of `value`; never fails.
    pub fn encode(value: &Nat) -> (r: Result<Vec<u8>, Error>)
        ensures
            r is Ok && r->Ok_0@ == zarith_nat(value@),
    {
        Ok(Self::encode_unsigned(value))
    }

    /// Decodes a natural from the front of `bytes`; bytes after it are left
    /// alone.
    pub fn decode(bytes: &[u8]) -> (r: Result<Nat, Error>)
        ensures
            zarith_nat_decode(bytes@) is Some ==> r is Ok && r->Ok_0@ == zarith_nat_decode(
                bytes@,
            )->Some_0.0,
            zarith_nat_decode(bytes@) is None ==> r == Err::<Nat, Error>(
                Error::InvalidNaturalBytes,
            ),
    {
        let mut cs = ConsumableBytes::new(bytes);
        Self::decode_consuming(&mut cs)
    }

    /// Decodes a natural from the front of `value`, consuming exactly its
    /// bytes. On failure every byte has been consumed.
    pub fn decode_consuming(value: &mut ConsumableBytes) -> (r: Result<Nat, Error>)
        ensures
            zarith_nat_decode(old(value)@) is Some ==> r is Ok && r->Ok_0@ == zarith_nat_decode(
                old(value)@,
            )->Some_0.0 && final(value)@ == old(value)@.skip(
                zarith_nat_decode(old(value)@)->Some_0.1 as int,
            ),
            zarith_nat_decode(old(value)@) is None ==> r == Err::<Nat, Error>(
                Error::InvalidNaturalBytes,
            ) && final(value)@.len() == 0,
    {
        if value.is_empty() {
            return Err(Error::InvalidNaturalBytes);
        }
        let mut acc: Vec<bool> = Vec::new();
        let ghost start = value@;
        let ghost acc_start = acc@;
        assert(acc_start =~= Seq::<bool>::empty());
        let ok = decode_groups(value, &mut acc);
        if !ok {
            return Err(Error::InvalidNaturalBytes);
        }
        proof {
            assert(pow2(0) == 1);
            assert(zarith_nat_decode(start) is Some);
            assert(bits_value(acc_start) == 0);
            assert(pow2(acc_start.len()) == 1);
            assert(bits_value(acc@) == zarith_nat_decode(start)->Some_0.0);
            assert(bits_value(acc@) == zarith_nat_decode(old(value)@)->Some_0.0);
        }
        trim_high_zeros(&mut acc);
        Ok(Nat::from_bits(acc))
    }
}

/// Converts integers to and from their variable-length byte encoding.
#[derive(Debug)]
pub struct IntegerBytesCoder;

impl IntegerBytesCoder {
    /// The encoding of `value`; never fails.
    pub fn encode(value: &Int) -> (r: Result<Vec<u8>, Error>)
        ensures
            r is Ok && r->Ok_0@ == zarith_int(value@),
    {
        let negative = value.is_negative();
        let m = value.magnitude().bits();
        let sign: u8 = if negative {
            64
        } else {
            0
        };
        let len = m.len();
        let end = if len > 6 {
            6
        } else {
            len
        };
        let low = bits_to_byte(m, 0, end);
        let ghost mv = bits_value(m@);
        let ghost rest = bits_value(m@.skip(end as int));
        proof {
            lemma_split_at(m@, 0, end as int);
            assert(m@.skip(0) =~= m@);
            lemma_suffix_canonical(m@, end as int);
            lemma_pow2_small();
            crate::bits::lemma_pow2_monotone(end as nat, 6);
            assert(magnitude(value@) == mv);
        }
        if len <= 6 {
            proof {
                assert(m@.skip(end as int) =~= Seq::<bool>::empty());
                assert(mv == low);
            }
            let mut out: Vec<u8> = Vec::new();
            out.push(low + sign);
            proof {
                assert(out@ =~= zarith_int(value@));
            }
            return Ok(out);
        }
        proof {
            assert(mv == low + 64 * rest);
            assert(mv % 64 == low as nat && mv / 64 == rest) by (nonlinear_arith)
                requires
                    mv == low + 64 * rest,
                    low < 64,
            ;
        }
        let mut out: Vec<u8> = Vec::new();
        out.push(low + sign + 128);
        encode_bits_from(m, 6, &mut out);
        proof {
            assert(out@ =~= zarith_int(value@));
        }
        Ok(out)
    }

    /// Decodes an integer from the front of `bytes`; bytes after it are left
    /// alone.
    pub fn decode(bytes: &[u8]) -> (r: Result<Int, Error>)
        ensures
            zarith_int_decode(bytes@) is Some ==> r is Ok && r->Ok_0@ == zarith_int_decode(
                bytes@,
            )->Some_0.0,
            zarith_int_decode(bytes@) is None ==> r == Err::<Int, Error>(
                Error::InvalidIntegerBytes,
            ),
    {
        let mut cs = ConsumableBytes::new(bytes);
        Self::decode_consuming(&mut cs)
    }

    /// Decodes an integer from the front of `value`, consuming exactly its
    /// bytes. On failure every byte has been consumed.
    pub fn decode_consuming(value: &mut ConsumableBytes) -> (r: Result<Int, Error>)
        ensures
            zarith_int_decode(old(value)@) is Some ==> r is Ok && r->Ok_0@ == zarith_int_decode(
                old(value)@,
            )->Some_0.0 && final(value)@ == old(value)@.skip(
                zarith_int_decode(old(value)@)->Some_0.1 as int,
            ),
            zarith_int_decode(old(value)@) is None ==> r == Err::<Int, Error>(
                Error::InvalidIntegerBytes,
            ) && final(value)@.len() == 0,
    {
        let ghost s = value@;
        let first = match value.consume_first() {
            Ok(b) => b,
            Err(_) => {
                return Err(Error::InvalidIntegerBytes);
            },
        };
        let negative = first & 64 != 0;
        let low = first & 63;
        let more = first & 128 != 0;
        proof {
            assert((first & 64 != 0) == (first % 128 >= 64)) by (bit_vector);
            assert(low == first % 64) by (bit_vector)
                requires low == first & 63;
            assert((first & 128 != 0) == (first >= 128)) by (bit_vector);
            lemma_pow2_small();
        }
        let mut acc: Vec<bool> = Vec::new();
        let ghost acc_start = acc@;
        proof {
            assert(acc_start =~= Seq::<bool>::empty());
            assert(bits_value(acc_start) == 0);
        }
        push_bits(&mut acc, low, 6);
        let ghost rest = value@;
        proof {
            assert(rest =~= s.drop_first());
            assert(bits_value(acc@) == low);
        }
        if more {
            let ghost acc_mid = acc@;
            let ok = decode_groups(value, &mut acc);
            if !ok {
                return Err(Error::InvalidIntegerBytes);
            }
            proof {
                assert(acc_mid.len() == 6);
                crate::zarith::lemma_nat_decode_length(rest);
                assert(final(value)@ =~= s.skip(zarith_int_decode(s)->Some_0.1 as int)) by {
                    assert(s.skip(1 + zarith_nat_decode(rest)->Some_0.1 as int) =~= rest.skip(
                        zarith_nat_decode(rest)->Some_0.1 as int,
                    ));
                }
            }
        } else {
            proof {
                assert(value@ =~= s.skip(1));
            }
        }
        trim_high_zeros(&mut acc);
        let nonzero = acc.len() > 0;
        proof {
            if nonzero {
                lemma_bits_positive(acc@);
            } else {
                assert(bits_value(acc@) == 0);
            }
        }
        let m = Nat::from_bits(acc);
        Ok(Int::from_parts(negative && nonzero, m))
    }
}

} // verus!
