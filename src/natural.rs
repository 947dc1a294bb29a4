//! Arbitrary-precision natural numbers.
use vstd::prelude::*;
use crate::bits::{
    bits_canonical, bits_to_u128, bits_value, lemma_bits_bound, lemma_bits_canonical_lower,
    lemma_pow2_monotone, lemma_pow2_wide, u128_to_bits,
};
use crate::coder::NaturalBytesCoder;
use crate::consumable::ConsumableBytes;
use crate::error::Error;
use crate::text::{decimal_value, is_decimal_of, is_nat_text, nat_text_bits, print_bits};
use crate::zarith::{zarith_nat, zarith_nat_decode};

verus! {

/// A natural number of any size, kept as its canonical little-endian bits.
#[derive(Debug, PartialEq, Eq)]
pub struct Nat {
    bits: Vec<bool>,
}

impl View for Nat {
    type V = nat;

    closed spec fn view(&self) -> nat {
        bits_value(self.bits@)
    }
}

impl Clone for Nat {
    fn clone(&self) -> (r: Self)
        ensures
            r@ == self@,
    {
        proof {
            use_type_invariant(self);
        }
        Nat { bits: self.bits.clone() }
    }
}

impl Nat {
    #[verifier::type_invariant]
    spec fn inv(&self) -> bool {
        bits_canonical(self.bits@)
    }

    /// The bits of the number, least significant first, without high zeros.
    pub(crate) fn bits(&self) -> (r: &Vec<bool>)
        ensures
            bits_canonical(r@),
            bits_value(r@) == self@,
    {
        proof {
            use_type_invariant(self);
        }
        &self.bits
    }

    pub(crate) fn from_bits(bits: Vec<bool>) -> (r: Nat)
        requires
            bits_canonical(bits@),
        ensures
            r@ == bits_value(bits@),
    {
        Nat { bits }
    }
}

impl Nat {
    /// Reads decimal digits; anything else, a sign or blanks included, is
    /// refused.
    pub fn from(value: &str) -> (r: Result<Nat, Error>)
        ensures
            is_nat_text(value@) ==> r is Ok && r->Ok_0@ == decimal_value(value@),
            !is_nat_text(value@) ==> r == Err::<Nat, Error>(Error::InvalidIntegerString),
    {
        match nat_text_bits(value) {
            Some(bits) => Ok(Nat { bits }),
            None => Err(Error::InvalidIntegerString),
        }
    }

    pub fn from_string(value: String) -> (r: Result<Nat, Error>)
        ensures
            is_nat_text(value@) ==> r is Ok && r->Ok_0@ == decimal_value(value@),
            !is_nat_text(value@) ==> r == Err::<Nat, Error>(Error::InvalidIntegerString),
    {
        Self::from(value.as_str())
    }

    /// Whether `value` is one or more decimal digits and nothing else.
    pub fn is_valid(value: &str) -> (r: bool)
        ensures
            r == is_nat_text(value@),
    {
        nat_text_bits(value).is_some()
    }

    pub fn to_bytes(&self) -> (r: Result<Vec<u8>, Error>)
        ensures
            r is Ok && r->Ok_0@ == zarith_nat(self@),
    {
        NaturalBytesCoder::encode(self)
    }

    pub fn from_bytes(bytes: &[u8]) -> (r: Result<Nat, Error>)
        ensures
            zarith_nat_decode(bytes@) is Some ==> r is Ok && r->Ok_0@ == zarith_nat_decode(
                bytes@,
            )->Some_0.0,
            zarith_nat_decode(bytes@) is None ==> r == Err::<Nat, Error>(
                Error::InvalidNaturalBytes,
            ),
    {
        NaturalBytesCoder::decode(bytes)
    }

    pub fn from_consumable_bytes(bytes: &mut ConsumableBytes) -> (r: Result<Nat, Error>)
        ensures
            zarith_nat_decode(old(bytes)@) is Some ==> r is Ok && r->Ok_0@ == zarith_nat_decode(
                old(bytes)@,
            )->Some_0.0 && final(bytes)@ == old(bytes)@.skip(
                zarith_nat_decode(old(bytes)@)->Some_0.1 as int,
            ),
            zarith_nat_decode(old(bytes)@) is None ==> r == Err::<Nat, Error>(
                Error::InvalidNaturalBytes,
            ) && final(bytes)@.len() == 0,
    {
        NaturalBytesCoder::decode_consuming(bytes)
    }

    /// Decimal digits, without leading zeros.
    pub fn to_string(&self) -> (r: String)
        ensures
            is_decimal_of(r@, self@),
    {
        proof {
            use_type_invariant(self);
            reveal_strlit("");
        }
        let r = print_bits("", &self.bits);
        proof {
            assert(r@.skip(0) =~= r@);
        }
        r
    }

    pub fn is_zero(&self) -> (r: bool)
        ensures
            r == (self@ == 0),
    {
        proof {
            use_type_invariant(self);
            if self.bits@.len() > 0 {
                crate::bits::lemma_bits_positive(self.bits@);
            }
        }
        self.bits.len() == 0
    }

    pub fn from_u64(value: u64) -> (r: Nat)
        ensures
            r@ == value,
    {
        Nat { bits: u128_to_bits(value as u128) }
    }

    pub fn from_u128(value: u128) -> (r: Nat)
        ensures
            r@ == value,
    {
        Nat { bits: u128_to_bits(value) }
    }

    /// The value as a `u128` where it fits, with the proof of the bound.
    fn to_bounded(&self, width: usize) -> (r: Option<u128>)
        requires
            width <= 128,
        ensures
            self@ < crate::bits::pow2(width as nat) ==> r == Some(self@ as u128),
            self@ >= crate::bits::pow2(width as nat) ==> r is None,
    {
        proof {
            use_type_invariant(self);
            lemma_bits_bound(self.bits@);
            if self.bits@.len() > width {
                lemma_bits_canonical_lower(self.bits@);
                lemma_pow2_monotone(width as nat, (self.bits@.len() - 1) as nat);
            } else {
                lemma_pow2_monotone(self.bits@.len(), width as nat);
            }
        }
        if self.bits.len() > width {
            None
        } else {
            Some(bits_to_u128(&self.bits))
        }
    }

    pub fn to_u64(&self) -> (r: Option<u64>)
        ensures
            self@ <= u64::MAX ==> r == Some(self@ as u64),
            self@ > u64::MAX ==> r is None,
    {
        proof {
            lemma_pow2_wide();
        }
        match self.to_bounded(64) {
            Some(v) => Some(v as u64),
            None => None,
        }
    }

    pub fn to_i64(&self) -> (r: Option<i64>)
        ensures
            self@ <= i64::MAX ==> r == Some(self@ as i64),
            self@ > i64::MAX ==> r is None,
    {
        proof {
            lemma_pow2_wide();
        }
        match self.to_bounded(63) {
            Some(v) => Some(v as i64),
            None => None,
        }
    }

    pub fn to_u128(&self) -> (r: Option<u128>)
        ensures
            self@ <= u128::MAX ==> r == Some(self@ as u128),
            self@ > u128::MAX ==> r is None,
    {
        proof {
            lemma_pow2_wide();
        }
        self.to_bounded(128)
    }

    pub fn to_i128(&self) -> (r: Option<i128>)
        ensures
            self@ <= i128::MAX ==> r == Some(self@ as i128),
            self@ > i128::MAX ==> r is None,
    {
        proof {
            lemma_pow2_wide();
        }
        match self.to_bounded(127) {
            Some(v) => Some(v as i128),
            None => None,
        }
    }
}

} // verus!
