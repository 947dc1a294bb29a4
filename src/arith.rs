//! Arithmetic on naturals and integers, through the big-integer crate.
use vstd::prelude::*;
use crate::error::Error;
use crate::bits::pow2;
use crate::integer::{is_int_decimal_of, lemma_int_decimal_reads_back, Int};
use crate::text::{int_text_value, is_int_text};
use crate::natural::Nat;
use crate::text::{bits_to_le_bytes, bytes_value, le_bytes_to_bits};
use crate::zarith::{magnitude, signed};

verus! {

/// How far a two's complement value reaches past its sign bits: zero for
/// `0` and `-1`, halved by each arithmetic right shift.
pub open spec fn twos_extent(a: int) -> nat {
    if a < 0 {
        (-a - 1) as nat
    } else {
        a as nat
    }
}

/// Bitwise and, on two's complement values of unbounded width.
pub open spec fn bit_and(a: int, b: int) -> int
    decreases twos_extent(a) + twos_extent(b),
{
    if twos_extent(a) == 0 && twos_extent(b) == 0 {
        if a == -1 && b == -1 {
            -1
        } else {
            0
        }
    } else {
        (a % 2) * (b % 2) + 2 * bit_and(a / 2, b / 2)
    }
}

/// Bitwise or, on two's complement values of unbounded width.
pub open spec fn bit_or(a: int, b: int) -> int
    decreases twos_extent(a) + twos_extent(b),
{
    if twos_extent(a) == 0 && twos_extent(b) == 0 {
        if a == -1 || b == -1 {
            -1
        } else {
            0
        }
    } else {
        (a % 2) + (b % 2) - (a % 2) * (b % 2) + 2 * bit_or(a / 2, b / 2)
    }
}

/// Bitwise exclusive or, on two's complement values of unbounded width.
pub open spec fn bit_xor(a: int, b: int) -> int
    decreases twos_extent(a) + twos_extent(b),
{
    if twos_extent(a) == 0 && twos_extent(b) == 0 {
        if a != b {
            -1
        } else {
            0
        }
    } else {
        ((a % 2) + (b % 2)) % 2 + 2 * bit_xor(a / 2, b / 2)
    }
}

/// Relies on `BitAnd` for `ibig::UBig`.
#[verifier::external_body]
fn and_le_bytes(a: &[u8], b: &[u8]) -> (r: Vec<u8>)
    ensures
        bytes_value(r@) == bit_and(bytes_value(a@) as int, bytes_value(b@) as int),
{
    (&ibig::UBig::from_le_bytes(a) & &ibig::UBig::from_le_bytes(b)).to_le_bytes()
}

/// Relies on `BitOr` for `ibig::UBig`.
#[verifier::external_body]
fn or_le_bytes(a: &[u8], b: &[u8]) -> (r: Vec<u8>)
    ensures
        bytes_value(r@) == bit_or(bytes_value(a@) as int, bytes_value(b@) as int),
{
    (&ibig::UBig::from_le_bytes(a) | &ibig::UBig::from_le_bytes(b)).to_le_bytes()
}

/// Relies on `BitXor` for `ibig::UBig`.
#[verifier::external_body]
fn xor_le_bytes(a: &[u8], b: &[u8]) -> (r: Vec<u8>)
    ensures
        bytes_value(r@) == bit_xor(bytes_value(a@) as int, bytes_value(b@) as int),
{
    (&ibig::UBig::from_le_bytes(a) ^ &ibig::UBig::from_le_bytes(b)).to_le_bytes()
}

/// Relies on `Shl<usize>` for `ibig::UBig`: the number times `2^n`.
#[verifier::external_body]
fn shl_le_bytes(a: &[u8], n: usize) -> (r: Vec<u8>)
    ensures
        bytes_value(r@) == bytes_value(a@) * pow2(n as nat),
{
    (&ibig::UBig::from_le_bytes(a) << n).to_le_bytes()
}

/// Relies on `Shr<usize>` for `ibig::UBig`: the number divided by `2^n`,
/// rounded down.
#[verifier::external_body]
fn shr_le_bytes(a: &[u8], n: usize) -> (r: Vec<u8>)
    ensures
        bytes_value(r@) == bytes_value(a@) / pow2(n as nat),
{
    (&ibig::UBig::from_le_bytes(a) >> n).to_le_bytes()
}

/// Relies on `IBig::from_str_radix` in base 10, `BitAnd` for `ibig::IBig`
/// (two's complement of unbounded width) and the decimal `Display` of `IBig`.
#[verifier::external_body]
fn and_int_text(a: &str, b: &str) -> (r: String)
    requires
        is_int_text(a@),
        is_int_text(b@),
    ensures
        is_int_decimal_of(r@, bit_and(int_text_value(a@), int_text_value(b@))),
{
    let x = ibig::IBig::from_str_radix(a, 10).unwrap_or_default();
    let y = ibig::IBig::from_str_radix(b, 10).unwrap_or_default();
    (x & y).to_string()
}

/// Relies on `IBig::from_str_radix` in base 10, `BitOr` for `ibig::IBig`
/// (two's complement of unbounded width) and the decimal `Display` of `IBig`.
#[verifier::external_body]
fn or_int_text(a: &str, b: &str) -> (r: String)
    requires
        is_int_text(a@),
        is_int_text(b@),
    ensures
        is_int_decimal_of(r@, bit_or(int_text_value(a@), int_text_value(b@))),
{
    let x = ibig::IBig::from_str_radix(a, 10).unwrap_or_default();
    let y = ibig::IBig::from_str_radix(b, 10).unwrap_or_default();
    (x | y).to_string()
}

/// Relies on `IBig::from_str_radix` in base 10, `BitXor` for `ibig::IBig`
/// (two's complement of unbounded width) and the decimal `Display` of `IBig`.
#[verifier::external_body]
fn xor_int_text(a: &str, b: &str) -> (r: String)
    requires
        is_int_text(a@),
        is_int_text(b@),
    ensures
        is_int_decimal_of(r@, bit_xor(int_text_value(a@), int_text_value(b@))),
{
    let x = ibig::IBig::from_str_radix(a, 10).unwrap_or_default();
    let y = ibig::IBig::from_str_radix(b, 10).unwrap_or_default();
    (x ^ y).to_string()
}

/// Relies on `IBig::from_str_radix` in base 10, `Shr<usize>` for
/// `ibig::IBig`, which rounds toward negative infinity, and the decimal
/// `Display` of `IBig`.
#[verifier::external_body]
fn shr_int_text(a: &str, n: usize) -> (r: String)
    requires
        is_int_text(a@),
    ensures
        is_int_decimal_of(r@, int_text_value(a@) / (pow2(n as nat) as int)),
{
    (&ibig::IBig::from_str_radix(a, 10).unwrap_or_default() >> n).to_string()
}

/// Relies on `Add` for `ibig::UBig`: the sum of the two numbers, read from
/// and given back as little-endian bytes.
#[verifier::external_body]
fn add_le_bytes(a: &[u8], b: &[u8]) -> (r: Vec<u8>)
    ensures
        bytes_value(r@) == bytes_value(a@) + bytes_value(b@),
{
    (ibig::UBig::from_le_bytes(a) + ibig::UBig::from_le_bytes(b)).to_le_bytes()
}

/// Relies on `Sub` for `ibig::UBig`, which panics where the result would be
/// negative: the difference, as little-endian bytes.
#[verifier::external_body]
fn sub_le_bytes(a: &[u8], b: &[u8]) -> (r: Vec<u8>)
    requires
        bytes_value(a@) >= bytes_value(b@),
    ensures
        bytes_value(r@) == bytes_value(a@) - bytes_value(b@),
{
    (ibig::UBig::from_le_bytes(a) - ibig::UBig::from_le_bytes(b)).to_le_bytes()
}

/// Relies on `Mul` for `ibig::UBig`: the product, as little-endian bytes.
#[verifier::external_body]
fn mul_le_bytes(a: &[u8], b: &[u8]) -> (r: Vec<u8>)
    ensures
        bytes_value(r@) == bytes_value(a@) * bytes_value(b@),
{
    (ibig::UBig::from_le_bytes(a) * ibig::UBig::from_le_bytes(b)).to_le_bytes()
}

/// Relies on `Div` for `ibig::UBig`, which panics on a zero divisor: the
/// quotient rounded down, as little-endian bytes.
#[verifier::external_body]
fn div_le_bytes(a: &[u8], b: &[u8]) -> (r: Vec<u8>)
    requires
        bytes_value(b@) != 0,
    ensures
        bytes_value(r@) == bytes_value(a@) / bytes_value(b@),
{
    (ibig::UBig::from_le_bytes(a) / ibig::UBig::from_le_bytes(b)).to_le_bytes()
}

/// Relies on `Rem` for `ibig::UBig`, which panics on a zero divisor: the
/// remainder, as little-endian bytes.
#[verifier::external_body]
fn rem_le_bytes(a: &[u8], b: &[u8]) -> (r: Vec<u8>)
    requires
        bytes_value(b@) != 0,
    ensures
        bytes_value(r@) == bytes_value(a@) % bytes_value(b@),
{
    (ibig::UBig::from_le_bytes(a) % ibig::UBig::from_le_bytes(b)).to_le_bytes()
}

/// Relies on `PartialOrd` for `ibig::UBig`: whether the first number is the
/// smaller.
#[verifier::external_body]
fn lt_le_bytes(a: &[u8], b: &[u8]) -> (r: bool)
    ensures
        r == (bytes_value(a@) < bytes_value(b@)),
{
    ibig::UBig::from_le_bytes(a) < ibig::UBig::from_le_bytes(b)
}

fn nat_of_bytes(b: &Vec<u8>) -> (r: Nat)
    ensures
        r@ == bytes_value(b@),
{
    Nat::from_bits(le_bytes_to_bits(b.as_slice()))
}

fn bytes_of_nat(n: &Nat) -> (r: Vec<u8>)
    ensures
        bytes_value(r@) == n@,
{
    bits_to_le_bytes(n.bits())
}

impl Nat {
    pub fn add(&self, other: &Nat) -> (r: Nat)
        ensures
            r@ == self@ + other@,
    {
        nat_of_bytes(&add_le_bytes(bytes_of_nat(self).as_slice(), bytes_of_nat(other).as_slice()))
    }

    /// The difference; fails where `other` is the larger.
    pub fn sub(&self, other: &Nat) -> (r: Result<Nat, Error>)
        ensures
            self@ >= other@ ==> r is Ok && r->Ok_0@ == self@ - other@,
            self@ < other@ ==> r == Err::<Nat, Error>(Error::InvalidNaturalConversion),
    {
        let a = bytes_of_nat(self);
        let b = bytes_of_nat(other);
        if lt_le_bytes(a.as_slice(), b.as_slice()) {
            return Err(Error::InvalidNaturalConversion);
        }
        Ok(nat_of_bytes(&sub_le_bytes(a.as_slice(), b.as_slice())))
    }

    pub fn mul(&self, other: &Nat) -> (r: Nat)
        ensures
            r@ == self@ * other@,
    {
        nat_of_bytes(&mul_le_bytes(bytes_of_nat(self).as_slice(), bytes_of_nat(other).as_slice()))
    }

    /// The quotient rounded down; fails on a zero divisor.
    pub fn div(&self, other: &Nat) -> (r: Result<Nat, Error>)
        ensures
            other@ != 0 ==> r is Ok && r->Ok_0@ == self@ / other@,
            other@ == 0 ==> r == Err::<Nat, Error>(Error::InvalidConversion),
    {
        let a = bytes_of_nat(self);
        let b = bytes_of_nat(other);
        if other.is_zero() {
            return Err(Error::InvalidConversion);
        }
        Ok(nat_of_bytes(&div_le_bytes(a.as_slice(), b.as_slice())))
    }

    /// The remainder; fails on a zero divisor.
    pub fn rem(&self, other: &Nat) -> (r: Result<Nat, Error>)
        ensures
            other@ != 0 ==> r is Ok && r->Ok_0@ == self@ % other@,
            other@ == 0 ==> r == Err::<Nat, Error>(Error::InvalidConversion),
    {
        let a = bytes_of_nat(self);
        let b = bytes_of_nat(other);
        if other.is_zero() {
            return Err(Error::InvalidConversion);
        }
        Ok(nat_of_bytes(&rem_le_bytes(a.as_slice(), b.as_slice())))
    }

    /// Whether `self` is below `other`.
    pub fn lt(&self, other: &Nat) -> (r: bool)
        ensures
            r == (self@ < other@),
    {
        lt_le_bytes(bytes_of_nat(self).as_slice(), bytes_of_nat(other).as_slice())
    }
}

impl Int {
    pub fn add(&self, other: &Int) -> (r: Int)
        ensures
            r@ == self@ + other@,
    {
        let na = self.is_negative();
        let nb = other.is_negative();
        let ma = self.magnitude();
        let mb = other.magnitude();
        if na == nb {
            let m = ma.add(mb);
            return Int::from_parts(na && !m.is_zero(), m);
        }
        if ma.lt(mb) {
            let m = match mb.sub(ma) {
                Ok(m) => m,
                Err(_) => Nat::from_u64(0),
            };
            Int::from_parts(nb && !m.is_zero(), m)
        } else {
            let m = match ma.sub(mb) {
                Ok(m) => m,
                Err(_) => Nat::from_u64(0),
            };
            Int::from_parts(na && !m.is_zero(), m)
        }
    }

    pub fn neg(&self) -> (r: Int)
        ensures
            r@ == -self@,
    {
        let m = self.magnitude().clone();
        let negative = !self.is_negative() && !m.is_zero();
        Int::from_parts(negative, m)
    }

    pub fn sub(&self, other: &Int) -> (r: Int)
        ensures
            r@ == self@ - other@,
    {
        self.add(&other.neg())
    }

    pub fn mul(&self, other: &Int) -> (r: Int)
        ensures
            r@ == self@ * other@,
    {
        let m = self.magnitude().mul(other.magnitude());
        let negative = self.is_negative() != other.is_negative() && !m.is_zero();
        proof {
            let a = self@;
            let b = other@;
            assert(magnitude(a) * magnitude(b) == magnitude(a * b)) by (nonlinear_arith);
            assert(a * b < 0 <==> (a < 0) != (b < 0) && a * b != 0) by (nonlinear_arith);
        }
        Int::from_parts(negative, m)
    }

    /// The quotient rounded toward zero; fails on a zero divisor.
    pub fn div(&self, other: &Int) -> (r: Result<Int, Error>)
        ensures
            other@ != 0 ==> r is Ok && r->Ok_0@ == signed(
                (self@ < 0) != (other@ < 0),
                magnitude(self@) / magnitude(other@),
            ),
            other@ == 0 ==> r == Err::<Int, Error>(Error::InvalidConversion),
    {
        let m = match self.magnitude().div(other.magnitude()) {
            Ok(m) => m,
            Err(e) => {
                return Err(e);
            },
        };
        let negative = self.is_negative() != other.is_negative() && !m.is_zero();
        Ok(Int::from_parts(negative, m))
    }

    /// The remainder of the division rounded toward zero, with the sign of
    /// `self`; fails on a zero divisor.
    pub fn rem(&self, other: &Int) -> (r: Result<Int, Error>)
        ensures
            other@ != 0 ==> r is Ok && r->Ok_0@ == signed(
                self@ < 0,
                magnitude(self@) % magnitude(other@),
            ),
            other@ == 0 ==> r == Err::<Int, Error>(Error::InvalidConversion),
    {
        let m = match self.magnitude().rem(other.magnitude()) {
            Ok(m) => m,
            Err(e) => {
                return Err(e);
            },
        };
        let negative = self.is_negative() && !m.is_zero();
        Ok(Int::from_parts(negative, m))
    }
}

/// The integer that printed integer text spells.
fn int_of_text(t: &String) -> (r: Int)
    requires
        is_int_text(t@),
    ensures
        r@ == int_text_value(t@),
{
    match Int::from(t.as_str()) {
        Ok(i) => i,
        Err(_) => Int::from_i64(0),
    }
}

impl Nat {
    pub fn bitand(&self, other: &Nat) -> (r: Nat)
        ensures
            r@ == bit_and(self@ as int, other@ as int),
    {
        nat_of_bytes(&and_le_bytes(bytes_of_nat(self).as_slice(), bytes_of_nat(other).as_slice()))
    }

    pub fn bitor(&self, other: &Nat) -> (r: Nat)
        ensures
            r@ == bit_or(self@ as int, other@ as int),
    {
        nat_of_bytes(&or_le_bytes(bytes_of_nat(self).as_slice(), bytes_of_nat(other).as_slice()))
    }

    pub fn bitxor(&self, other: &Nat) -> (r: Nat)
        ensures
            r@ == bit_xor(self@ as int, other@ as int),
    {
        nat_of_bytes(&xor_le_bytes(bytes_of_nat(self).as_slice(), bytes_of_nat(other).as_slice()))
    }

    /// The number times `2^n`.
    pub fn shl(&self, n: usize) -> (r: Nat)
        ensures
            r@ == self@ * pow2(n as nat),
    {
        nat_of_bytes(&shl_le_bytes(bytes_of_nat(self).as_slice(), n))
    }

    /// The number divided by `2^n`, rounded down.
    pub fn shr(&self, n: usize) -> (r: Nat)
        ensures
            r@ == self@ / pow2(n as nat),
    {
        nat_of_bytes(&shr_le_bytes(bytes_of_nat(self).as_slice(), n))
    }
}

impl Int {
    pub fn bitand(&self, other: &Int) -> (r: Int)
        ensures
            r@ == bit_and(self@, other@),
    {
        let a = self.to_string();
        let b = other.to_string();
        proof {
            lemma_int_decimal_reads_back(a@, self@);
            lemma_int_decimal_reads_back(b@, other@);
        }
        let t = and_int_text(a.as_str(), b.as_str());
        proof {
            lemma_int_decimal_reads_back(t@, bit_and(self@, other@));
        }
        int_of_text(&t)
    }

    pub fn bitor(&self, other: &Int) -> (r: Int)
        ensures
            r@ == bit_or(self@, other@),
    {
        let a = self.to_string();
        let b = other.to_string();
        proof {
            lemma_int_decimal_reads_back(a@, self@);
            lemma_int_decimal_reads_back(b@, other@);
        }
        let t = or_int_text(a.as_str(), b.as_str());
        proof {
            lemma_int_decimal_reads_back(t@, bit_or(self@, other@));
        }
        int_of_text(&t)
    }

    pub fn bitxor(&self, other: &Int) -> (r: Int)
        ensures
            r@ == bit_xor(self@, other@),
    {
        let a = self.to_string();
        let b = other.to_string();
        proof {
            lemma_int_decimal_reads_back(a@, self@);
            lemma_int_decimal_reads_back(b@, other@);
        }
        let t = xor_int_text(a.as_str(), b.as_str());
        proof {
            lemma_int_decimal_reads_back(t@, bit_xor(self@, other@));
        }
        int_of_text(&t)
    }

    /// The value times `2^n`.
    pub fn shl(&self, n: usize) -> (r: Int)
        ensures
            r@ == self@ * pow2(n as nat),
    {
        let m = self.magnitude().shl(n);
        let negative = self.is_negative() && !m.is_zero();
        proof {
            let p = pow2(n as nat) as int;
            crate::bits::lemma_pow2_positive(n as nat);
            assert(magnitude(self@) * p == magnitude(self@ * p)) by (nonlinear_arith)
                requires
                    p > 0,
            ;
            assert(self@ * p < 0 <==> self@ < 0) by (nonlinear_arith)
                requires
                    p > 0,
            ;
        }
        Int::from_parts(negative, m)
    }

    /// The value divided by `2^n`, rounded toward negative infinity.
    pub fn shr(&self, n: usize) -> (r: Int)
        ensures
            r@ == self@ / (pow2(n as nat) as int),
    {
        let a = self.to_string();
        proof {
            lemma_int_decimal_reads_back(a@, self@);
        }
        let t = shr_int_text(a.as_str(), n);
        proof {
            lemma_int_decimal_reads_back(t@, self@ / (pow2(n as nat) as int));
        }
        int_of_text(&t)
    }
}

} // verus!
