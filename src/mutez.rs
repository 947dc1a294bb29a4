//! Amounts in the smallest currency unit.
use vstd::prelude::*;
use crate::coder::NaturalBytesCoder;
use crate::consumable::ConsumableBytes;
use crate::error::Error;
use crate::natural::Nat;
use crate::zarith::{zarith_nat, zarith_nat_decode};

verus! {

/// The largest amount: amounts fit a signed 64-bit integer.
pub const MUTEZ_MAX: u64 = 0x7fff_ffff_ffff_ffff;

/// Reads an amount from the front of `s`; gives the amount and what follows.
pub open spec fn parse_mutez(s: Seq<u8>) -> Option<(nat, Seq<u8>)> {
    match zarith_nat_decode(s) {
        Some((v, n)) => if v <= MUTEZ_MAX {
            Some((v, s.skip(n as int)))
        } else {
            None
        },
        None => None,
    }
}

/// Why an amount cannot be read from the front of `s`: its bytes do not
/// decode, or the value is above `MUTEZ_MAX`.
pub open spec fn mutez_error(s: Seq<u8>) -> Error {
    if zarith_nat_decode(s) is None {
        Error::InvalidNaturalBytes
    } else {
        Error::InvalidConversion
    }
}

/// A non-negative amount no larger than `MUTEZ_MAX`.
#[derive(Debug, PartialEq, Eq)]
pub struct Mutez {
    value: u64,
}

impl View for Mutez {
    type V = nat;

    closed spec fn view(&self) -> nat {
        self.value as nat
    }
}

impl Clone for Mutez {
    fn clone(&self) -> (r: Self)
        ensures
            r@ == self@,
    {
        proof {
            use_type_invariant(self);
        }
        Mutez { value: self.value }
    }
}

impl Mutez {
    #[verifier::type_invariant]
    spec fn inv(&self) -> bool {
        self.value <= MUTEZ_MAX
    }

    pub fn new(value: u64) -> (r: Result<Mutez, Error>)
        ensures
            value <= MUTEZ_MAX ==> r is Ok && r->Ok_0@ == value,
            value > MUTEZ_MAX ==> r == Err::<Mutez, Error>(Error::InvalidConversion),
    {
        if value > MUTEZ_MAX {
            return Err(Error::InvalidConversion);
        }
        Ok(Mutez { value })
    }

    pub fn value(&self) -> (r: u64)
        ensures
            r == self@,
            r <= MUTEZ_MAX,
    {
        proof {
            use_type_invariant(self);
        }
        self.value
    }

    pub fn to_nat(&self) -> (r: Nat)
        ensures
            r@ == self@,
    {
        Nat::from_u64(self.value)
    }

    /// The amount that `value` counts; fails where it is above `MUTEZ_MAX`.
    pub fn try_from_nat(value: &Nat) -> (r: Result<Mutez, Error>)
        ensures
            value@ <= MUTEZ_MAX ==> r is Ok && r->Ok_0@ == value@,
            value@ > MUTEZ_MAX ==> r == Err::<Mutez, Error>(Error::InvalidConversion),
    {
        match value.to_u64() {
            Some(v) => Self::new(v),
            None => Err(Error::InvalidConversion),
        }
    }

    /// The encoding of the amount as a natural.
    pub fn to_bytes(&self) -> (r: Vec<u8>)
        ensures
            r@ == zarith_nat(self@),
            self@ <= MUTEZ_MAX,
    {
        proof {
            use_type_invariant(self);
        }
        NaturalBytesCoder::encode_unsigned(&self.to_nat())
    }

    /// Reads an amount from the front of `bytes`.
    pub fn from_consumable_bytes(bytes: &mut ConsumableBytes) -> (r: Result<Mutez, Error>)
        ensures
            parse_mutez(old(bytes)@) is Some ==> r is Ok && r->Ok_0@ == parse_mutez(
                old(bytes)@,
            )->Some_0.0 && final(bytes)@ == parse_mutez(old(bytes)@)->Some_0.1,
            parse_mutez(old(bytes)@) is None ==> r == Err::<Mutez, Error>(
                mutez_error(old(bytes)@),
            ),
    {
        match Nat::from_consumable_bytes(bytes) {
            Ok(n) => Self::try_from_nat(&n),
            Err(e) => Err(e),
        }
    }
}

} // verus!
