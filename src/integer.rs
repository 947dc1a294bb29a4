//! Arbitrary-precision signed integers.
use vstd::prelude::*;
use crate::bits::{lemma_pow2_wide};
use crate::coder::IntegerBytesCoder;
use crate::consumable::ConsumableBytes;
use crate::error::Error;
use crate::natural::Nat;
use crate::text::{
    int_text_parts, int_text_value, is_decimal_of, is_int_text, print_bits,
};
use crate::zarith::{magnitude, signed, zarith_int, zarith_int_decode};

verus! {

/// The decimal text of `v` as printed: a minus sign for negative values, then
/// the digits of the magnitude without leading zeros.
pub open spec fn is_int_decimal_of(s: Seq<char>, v: int) -> bool {
    if v < 0 {
        s.len() > 0 && s[0] == '-' && is_decimal_of(s.drop_first(), magnitude(v))
    } else {
        is_decimal_of(s, magnitude(v))
    }
}

/// Printed integer text reads back as the same integer.
pub proof fn lemma_int_decimal_reads_back(s: Seq<char>, v: int)
    requires
        is_int_decimal_of(s, v),
    ensures
        is_int_text(s),
        int_text_value(s) == v,
{
    if v >= 0 {
        assert(crate::text::is_digit(s[0]));
    }
}

/// An integer of any size: a sign and a magnitude, zero counting as
/// non-negative.
#[derive(Debug, PartialEq, Eq)]
pub struct Int {
    negative: bool,
    magnitude: Nat,
}

impl View for Int {
    type V = int;

    closed spec fn view(&self) -> int {
        signed(self.negative, self.magnitude@)
    }
}

impl Clone for Int {
    fn clone(&self) -> (r: Self)
        ensures
            r@ == self@,
    {
        proof {
            use_type_invariant(self);
        }
        Int { negative: self.negative, magnitude: self.magnitude.clone() }
    }
}

impl Int {
    #[verifier::type_invariant]
    spec fn inv(&self) -> bool {
        self.negative ==> self.magnitude@ > 0
    }

    pub(crate) fn from_parts(negative: bool, magnitude: Nat) -> (r: Int)
        requires
            negative ==> magnitude@ > 0,
        ensures
            r@ == signed(negative, magnitude@),
    {
        Int { negative, magnitude }
    }

    /// Whether the value is below zero.
    pub fn is_negative(&self) -> (r: bool)
        ensures
            r == (self@ < 0),
    {
        proof {
            use_type_invariant(self);
        }
        self.negative
    }

    /// The absolute value.
    pub fn magnitude(&self) -> (r: &Nat)
        ensures
            r@ == magnitude(self@),
    {
        &self.magnitude
    }

    /// Reads an optional minus sign and decimal digits; anything else is
    /// refused.
    pub fn from(value: &str) -> (r: Result<Int, Error>)
        ensures
            is_int_text(value@) ==> r is Ok && r->Ok_0@ == int_text_value(value@),
            !is_int_text(value@) ==> r == Err::<Int, Error>(Error::InvalidIntegerString),
    {
        match int_text_parts(value) {
            Some((negative, bits)) => Ok(Int { negative, magnitude: Nat::from_bits(bits) }),
            None => Err(Error::InvalidIntegerString),
        }
    }

    pub fn from_string(value: String) -> (r: Result<Int, Error>)
        ensures
            is_int_text(value@) ==> r is Ok && r->Ok_0@ == int_text_value(value@),
            !is_int_text(value@) ==> r == Err::<Int, Error>(Error::InvalidIntegerString),
    {
        Self::from(value.as_str())
    }

    /// Whether `value` is an optional minus sign and one or more decimal
    /// digits, and nothing else.
    pub fn is_valid(value: &str) -> (r: bool)
        ensures
            r == is_int_text(value@),
    {
        int_text_parts(value).is_some()
    }

    pub fn to_bytes(&self) -> (r: Result<Vec<u8>, Error>)
        ensures
            r is Ok && r->Ok_0@ == zarith_int(self@),
    {
        IntegerBytesCoder::encode(self)
    }

    pub fn from_bytes(bytes: &[u8]) -> (r: Result<Int, Error>)
        ensures
            zarith_int_decode(bytes@) is Some ==> r is Ok && r->Ok_0@ == zarith_int_decode(
                bytes@,
            )->Some_0.0,
            zarith_int_decode(bytes@) is None ==> r == Err::<Int, Error>(
                Error::InvalidIntegerBytes,
            ),
    {
        IntegerBytesCoder::decode(bytes)
    }

    pub fn from_consumable_bytes(bytes: &mut ConsumableBytes) -> (r: Result<Int, Error>)
        ensures
            zarith_int_decode(old(bytes)@) is Some ==> r is Ok && r->Ok_0@ == zarith_int_decode(
                old(bytes)@,
            )->Some_0.0 && final(bytes)@ == old(bytes)@.skip(
                zarith_int_decode(old(bytes)@)->Some_0.1 as int,
            ),
            zarith_int_decode(old(bytes)@) is None ==> r == Err::<Int, Error>(
                Error::InvalidIntegerBytes,
            ) && final(bytes)@.len() == 0,
    {
        IntegerBytesCoder::decode_consuming(bytes)
    }

    /// Decimal text: a minus sign for negative values, then digits without
    /// leading zeros.
    pub fn to_string(&self) -> (r: String)
        ensures
            is_int_decimal_of(r@, self@),
    {
        proof {
            use_type_invariant(self);
            reveal_strlit("");
            reveal_strlit("-");
        }
        let bits = self.magnitude.bits();
        if self.negative {
            let r = print_bits("-", bits);
            proof {
                assert(r@.skip(1) =~= r@.drop_first());
                assert(r@.subrange(0, 1)[0] == r@[0]);
                assert("-"@[0] == '-');
                assert(self@ < 0);
            }
            r
        } else {
            let r = print_bits("", bits);
            proof {
                assert(r@.skip(0) =~= r@);
            }
            r
        }
    }

    pub fn from_i64(value: i64) -> (r: Int)
        ensures
            r@ == value,
    {
        Self::from_i128(value as i128)
    }

    pub fn from_i128(value: i128) -> (r: Int)
        ensures
            r@ == value,
    {
        if value < 0 {
            let m: u128 = ((-(value + 1)) as u128) + 1;
            Int { negative: true, magnitude: Nat::from_u128(m) }
        } else {
            Int { negative: false, magnitude: Nat::from_u128(value as u128) }
        }
    }

    pub fn from_nat(value: &Nat) -> (r: Int)
        ensures
            r@ == value@,
    {
        Int { negative: false, magnitude: value.clone() }
    }

    /// The value as a natural; fails for negative values.
    pub fn to_nat(&self) -> (r: Result<Nat, Error>)
        ensures
            self@ >= 0 ==> r is Ok && r->Ok_0@ == self@,
            self@ < 0 ==> r == Err::<Nat, Error>(Error::InvalidNaturalConversion),
    {
        proof {
            use_type_invariant(self);
        }
        if self.negative {
            Err(Error::InvalidNaturalConversion)
        } else {
            Ok(self.magnitude.clone())
        }
    }

    pub fn to_i128(&self) -> (r: Option<i128>)
        ensures
            i128::MIN <= self@ <= i128::MAX ==> r == Some(self@ as i128),
            !(i128::MIN <= self@ <= i128::MAX) ==> r is None,
    {
        proof {
            use_type_invariant(self);
        }
        match self.magnitude.to_u128() {
            None => None,
            Some(m) => {
                if self.negative {
                    if m > 0x8000_0000_0000_0000_0000_0000_0000_0000 {
                        None
                    } else {
                        Some(-((m - 1) as i128) - 1)
                    }
                } else if m > 0x7fff_ffff_ffff_ffff_ffff_ffff_ffff_ffff {
                    None
                } else {
                    Some(m as i128)
                }
            },
        }
    }

    pub fn to_i64(&self) -> (r: Option<i64>)
        ensures
            i64::MIN <= self@ <= i64::MAX ==> r == Some(self@ as i64),
            !(i64::MIN <= self@ <= i64::MAX) ==> r is None,
    {
        match self.to_i128() {
            Some(v) => {
                if v < i64::MIN as i128 || v > i64::MAX as i128 {
                    None
                } else {
                    Some(v as i64)
                }
            },
            None => None,
        }
    }

    pub fn to_u64(&self) -> (r: Option<u64>)
        ensures
            0 <= self@ <= u64::MAX ==> r == Some(self@ as u64),
            !(0 <= self@ <= u64::MAX) ==> r is None,
    {
        proof {
            use_type_invariant(self);
        }
        if self.negative {
            None
        } else {
            self.magnitude.to_u64()
        }
    }

    pub fn to_u32(&self) -> (r: Option<u32>)
        ensures
            0 <= self@ <= u32::MAX ==> r == Some(self@ as u32),
            !(0 <= self@ <= u32::MAX) ==> r is None,
    {
        match self.to_u64() {
            Some(v) => {
                if v > u32::MAX as u64 {
                    None
                } else {
                    Some(v as u32)
                }
            },
            None => None,
        }
    }

    pub fn to_u128(&self) -> (r: Option<u128>)
        ensures
            0 <= self@ <= u128::MAX ==> r == Some(self@ as u128),
            !(0 <= self@ <= u128::MAX) ==> r is None,
    {
        proof {
            use_type_invariant(self);
        }
        if self.negative {
            None
        } else {
            self.magnitude.to_u128()
        }
    }
}

} // verus!
